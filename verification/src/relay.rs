//! The credential relay: a one-shot helper program that hands a password to
//! the secure shell. The helper never holds the password itself. It prints
//! the value of an environment variable, and the password is put in that
//! variable for the one child process that needs it.

use crate::text::{decimal, lemma_decimal_injective, render_decimal};
use vstd::prelude::*;

verus! {

/// Permission bits of a helper file: read, write and execute for the owner.
pub const HELPER_MODE: u32 = 0o700;

/// The permission bits that belong to the group and to everyone else.
pub const SHARED_BITS: u32 = 0o077;

/// Whether `mode` grants nothing to the group and to everyone else.
pub open spec fn owner_only(mode: u32) -> bool {
    mode & SHARED_BITS == 0
}

/// The name of the variable that carries the password to the child.
pub open spec fn secret_variable_text() -> Seq<char> {
    "MACPROX_SSH_PASSWORD"@
}

/// The helper program that prints the value of `variable` and nothing more.
pub open spec fn script_text(variable: Seq<char>) -> Seq<char> {
    "#!/bin/sh\nprintf \"%s\" \"$"@ + variable + "\"\n"@
}

/// The file name of the helper that instance `instance` of the program uses.
pub open spec fn file_name_text(instance: u32) -> Seq<char> {
    "macprox_askpass_"@ + decimal(instance as nat) + ".sh"@
}

/// A helper file as plain values: what it is called, what it holds and who
/// may touch it.
pub struct HelperModel {
    pub file_name: Seq<char>,
    pub script: Seq<char>,
    pub mode: u32,
}

/// The helper that serves `variable` for instance `instance`.
pub open spec fn helper_for(variable: Seq<char>, instance: u32) -> HelperModel {
    HelperModel {
        file_name: file_name_text(instance),
        script: script_text(variable),
        mode: HELPER_MODE,
    }
}

/// A helper file that is still to be written: its name inside the temporary
/// directory, its contents and its permission bits.
pub struct CredentialHelper {
    pub file_name: String,
    pub script: String,
    pub mode: u32,
}

impl View for CredentialHelper {
    type V = HelperModel;

    open spec fn view(&self) -> HelperModel {
        HelperModel { file_name: self.file_name@, script: self.script@, mode: self.mode }
    }
}

/// The name of the variable that carries the password to the child.
pub fn secret_variable() -> (r: &'static str)
    ensures
        r@ == secret_variable_text(),
{
    "MACPROX_SSH_PASSWORD"
}

/// Writes the helper program for `variable`. The password is no input of
/// this function: the program names the variable and never the value.
pub fn helper_script(variable: &str) -> (r: String)
    ensures
        r@ == script_text(variable@),
{
    let mut r = String::from_str("#!/bin/sh\nprintf \"%s\" \"$");
    r.append(variable);
    r.append("\"\n");
    r
}

/// Names the helper file of instance `instance`.
pub fn helper_file_name(instance: u32) -> (r: String)
    ensures
        r@ == file_name_text(instance),
{
    let mut r = String::from_str("macprox_askpass_");
    r.append(render_decimal(instance).as_str());
    r.append(".sh");
    r
}

impl CredentialHelper {
    /// Describes the helper that serves `variable` for instance `instance`.
    pub fn new(variable: &str, instance: u32) -> (r: CredentialHelper)
        ensures
            r@ == helper_for(variable@, instance),
    {
        CredentialHelper {
            file_name: helper_file_name(instance),
            script: helper_script(variable),
            mode: HELPER_MODE,
        }
    }
}

/// A helper file is open to its owner alone: the group and everyone else
/// get no access, and the owner may read, write and run it.
pub proof fn lemma_helper_mode_owner_only(variable: Seq<char>, instance: u32)
    ensures
        owner_only(helper_for(variable, instance).mode),
        helper_for(variable, instance).mode & 0o700 == 0o700,
{
    assert(0o700u32 & 0o077u32 == 0) by (bit_vector);
    assert(0o700u32 & 0o700u32 == 0o700u32) by (bit_vector);
}

/// Two instances never share a helper file name.
pub proof fn lemma_file_names_differ(a: u32, b: u32)
    requires
        a != b,
    ensures
        file_name_text(a) != file_name_text(b),
{
    let prefix = "macprox_askpass_"@;
    let suffix = ".sh"@;
    if file_name_text(a) == file_name_text(b) {
        reveal_strlit("macprox_askpass_");
        reveal_strlit(".sh");
        let da = decimal(a as nat);
        let db = decimal(b as nat);
        let fa = prefix + da + suffix;
        let fb = prefix + db + suffix;
        assert(fa.len() == fb.len());
        assert(da.len() == db.len());
        assert forall|i: int| 0 <= i < da.len() implies da[i] == db[i] by {
            assert(fa[i + 16] == da[i]);
            assert(fb[i + 16] == db[i]);
        }
        assert(da =~= db);
        lemma_decimal_injective(a as nat, b as nat);
    }
}

} // verus!
