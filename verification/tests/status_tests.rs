use macprox::request::ValidationError;
use macprox::status::{
    connecting_status, disconnected_status, ConnectionOutcome, FailureReason, StatusReporter,
};

#[test]
fn failure_status_lines() {
    assert_eq!(
        FailureReason::Validation(ValidationError::EmptyHost).status_text(),
        "Server and Username required"
    );
    assert_eq!(
        FailureReason::Validation(ValidationError::EmptyUsername).status_text(),
        "Server and Username required"
    );
    assert_eq!(FailureReason::HelperCreation.status_text(), "Failed to create askpass helper");
    assert_eq!(
        FailureReason::Spawn("No such file or directory (os error 2)".to_string()).status_text(),
        "Failed to start sshuttle: No such file or directory (os error 2)"
    );
    assert_eq!(
        FailureReason::EarlyExit("exit status: 255".to_string()).status_text(),
        "Connection failed: exit status: 255"
    );
}

#[test]
fn outcome_status_lines() {
    assert_eq!(
        ConnectionOutcome::Connected("bob@example.com:22".to_string()).status_text(),
        "Connected via sshuttle: bob@example.com:22"
    );
    assert_eq!(
        ConnectionOutcome::AlreadyConnected.status_text(),
        "Already connected. Disconnect first."
    );
    assert_eq!(
        ConnectionOutcome::Failed(FailureReason::HelperCreation).status_text(),
        "Failed to create askpass helper"
    );
}

#[test]
fn progress_status_lines() {
    assert_eq!(connecting_status("office"), "Connecting to office...");
    assert_eq!(connecting_status("bob@example.com:22"), "Connecting to bob@example.com:22...");
    assert_eq!(disconnected_status(), "Disconnected");
}

#[test]
fn reporter_keeps_the_last_line_and_the_flag() {
    let mut reporter = StatusReporter::new();
    assert_eq!(reporter.text(), "");
    assert!(!reporter.is_connected());
    reporter.publish("one".to_string());
    reporter.set_connected(true);
    assert_eq!(reporter.text(), "one");
    assert!(reporter.is_connected());
    reporter.publish("two".to_string());
    assert_eq!(reporter.text(), "two");
    assert!(reporter.is_connected());
    reporter.set_connected(false);
    assert_eq!(reporter.text(), "two");
    assert!(!reporter.is_connected());
}
