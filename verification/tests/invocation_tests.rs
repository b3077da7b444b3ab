use macprox::invocation::{build_transport_command, Invocation, StreamPolicy};
use macprox::request::ConnectionRequest;

fn request_for_invocation(port: &str, password: Option<&str>) -> ConnectionRequest {
    ConnectionRequest::from_form(None, "example.com", port, "bob", password).ok().unwrap()
}

#[test]
fn transport_command_without_password() {
    assert_eq!(
        build_transport_command(22, false),
        "ssh -p 22 -o ExitOnForwardFailure=yes -o ServerAliveInterval=15 -o ServerAliveCountMax=3"
    );
}

#[test]
fn transport_command_with_password() {
    assert_eq!(
        build_transport_command(2222, true),
        "ssh -p 2222 -o ExitOnForwardFailure=yes -o ServerAliveInterval=15 \
         -o ServerAliveCountMax=3 -o PreferredAuthentications=password \
         -o PubkeyAuthentication=no -o NumberOfPasswordPrompts=1"
    );
}

#[test]
fn invocation_without_password_has_no_environment() {
    let invocation = Invocation::for_request(&request_for_invocation("22", None), None);
    assert_eq!(invocation.program, "sshuttle");
    assert_eq!(
        invocation.args,
        vec![
            "--dns",
            "-r",
            "bob@example.com",
            "0.0.0.0/0",
            "--method",
            "auto",
            "-x",
            "example.com",
            "-e",
            "ssh -p 22 -o ExitOnForwardFailure=yes -o ServerAliveInterval=15 -o ServerAliveCountMax=3",
        ]
    );
    assert!(invocation.env.is_empty());
}

#[test]
fn invocation_with_password_hands_it_over_in_the_environment() {
    let invocation = Invocation::for_request(
        &request_for_invocation("abc", Some("x")),
        Some("/tmp/macprox_askpass_1.sh"),
    );
    assert_eq!(invocation.args.len(), 10);
    assert_eq!(invocation.args[2], "bob@example.com");
    assert_eq!(invocation.args[7], "example.com");
    assert_eq!(
        invocation.args[9],
        "ssh -p 22 -o ExitOnForwardFailure=yes -o ServerAliveInterval=15 \
         -o ServerAliveCountMax=3 -o PreferredAuthentications=password \
         -o PubkeyAuthentication=no -o NumberOfPasswordPrompts=1"
    );
    let expected: Vec<(String, String)> = vec![
        ("MACPROX_SSH_PASSWORD".to_string(), "x".to_string()),
        ("SSH_ASKPASS".to_string(), "/tmp/macprox_askpass_1.sh".to_string()),
        ("SSH_ASKPASS_REQUIRE".to_string(), "force".to_string()),
        ("DISPLAY".to_string(), ":0".to_string()),
    ];
    assert_eq!(invocation.env, expected);
}

#[test]
fn password_never_shows_in_the_arguments() {
    let secret = "correct horse battery staple";
    let with = Invocation::for_request(
        &request_for_invocation("22", Some(secret)),
        Some("/tmp/helper.sh"),
    );
    let other = Invocation::for_request(
        &request_for_invocation("22", Some("another")),
        Some("/tmp/helper.sh"),
    );
    assert_eq!(with.args, other.args);
    assert_eq!(with.program, other.program);
    for arg in &with.args {
        assert!(!arg.contains(secret));
    }
}

#[test]
fn helper_without_password_adds_nothing() {
    let invocation =
        Invocation::for_request(&request_for_invocation("22", None), Some("/tmp/helper.sh"));
    assert!(invocation.env.is_empty());
    assert!(!invocation.args[9].contains("PreferredAuthentications"));
}

#[test]
fn password_without_helper_adds_no_environment() {
    let invocation = Invocation::for_request(&request_for_invocation("22", Some("x")), None);
    assert!(invocation.env.is_empty());
    assert!(invocation.args[9].contains("PreferredAuthentications=password"));
}

#[test]
fn streams_are_closed_discarded_and_captured() {
    let invocation = Invocation::for_request(&request_for_invocation("22", None), None);
    assert_eq!(invocation.stdin, StreamPolicy::Closed);
    assert_eq!(invocation.stdout, StreamPolicy::Discarded);
    assert_eq!(invocation.stderr, StreamPolicy::Captured);
}
