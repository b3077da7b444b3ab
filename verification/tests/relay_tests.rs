use macprox::relay::{
    helper_file_name, helper_script, secret_variable, CredentialHelper, HELPER_MODE, SHARED_BITS,
};

#[test]
fn helper_script_prints_the_named_variable() {
    assert_eq!(
        helper_script("MACPROX_SSH_PASSWORD"),
        "#!/bin/sh\nprintf \"%s\" \"$MACPROX_SSH_PASSWORD\"\n"
    );
    assert_eq!(helper_script("X"), "#!/bin/sh\nprintf \"%s\" \"$X\"\n");
}

#[test]
fn secret_variable_is_the_designated_one() {
    assert_eq!(secret_variable(), "MACPROX_SSH_PASSWORD");
}

#[test]
fn helper_file_name_holds_the_instance_number() {
    assert_eq!(helper_file_name(0), "macprox_askpass_0.sh");
    assert_eq!(helper_file_name(4711), "macprox_askpass_4711.sh");
    assert_eq!(helper_file_name(4294967295), "macprox_askpass_4294967295.sh");
}

#[test]
fn helper_file_names_of_different_instances_differ() {
    let numbers = [0u32, 1, 9, 10, 11, 19, 91, 100, 101, 110, 1000, 65535, 65536];
    for a in numbers {
        for b in numbers {
            if a != b {
                assert_ne!(helper_file_name(a), helper_file_name(b));
            }
        }
    }
}

#[test]
fn helper_mode_is_for_the_owner_alone() {
    assert_eq!(HELPER_MODE, 0o700);
    assert_eq!(SHARED_BITS, 0o077);
    assert_eq!(HELPER_MODE & SHARED_BITS, 0);
    assert_eq!(HELPER_MODE & 0o700, 0o700);
}

#[test]
fn credential_helper_describes_the_whole_file() {
    let helper = CredentialHelper::new(secret_variable(), 321);
    assert_eq!(helper.file_name, "macprox_askpass_321.sh");
    assert_eq!(helper.script, "#!/bin/sh\nprintf \"%s\" \"$MACPROX_SSH_PASSWORD\"\n");
    assert_eq!(helper.mode, 0o700);
    assert_eq!(helper.mode & 0o077, 0);
}
