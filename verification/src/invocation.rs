//! How the tunnel tool is started: its arguments, the environment it gets
//! and what becomes of its standard streams.

use crate::relay::{secret_variable, secret_variable_text};
use crate::request::{ConnectionRequest, RequestModel};
use crate::text::{decimal, pair_texts, push_text, render_decimal, texts};
use vstd::prelude::*;

verus! {

/// What becomes of one of the child's standard streams.
#[derive(Clone, Copy, Debug, PartialEq, Eq, Structural)]
pub enum StreamPolicy {
    /// Nothing can be read from it.
    Closed,
    /// What is written to it is thrown away.
    Discarded,
    /// What is written to it is kept for diagnostics.
    Captured,
}

/// A process to start, as plain values.
pub struct InvocationModel {
    pub program: Seq<char>,
    pub args: Seq<Seq<char>>,
    pub env: Seq<(Seq<char>, Seq<char>)>,
    pub stdin: StreamPolicy,
    pub stdout: StreamPolicy,
    pub stderr: StreamPolicy,
}

/// A process to start: program, arguments, additions to the environment and
/// the policy for each standard stream.
pub struct Invocation {
    pub program: String,
    pub args: Vec<String>,
    pub env: Vec<(String, String)>,
    pub stdin: StreamPolicy,
    pub stdout: StreamPolicy,
    pub stderr: StreamPolicy,
}

impl View for Invocation {
    type V = InvocationModel;

    open spec fn view(&self) -> InvocationModel {
        InvocationModel {
            program: self.program@,
            args: texts(self.args@),
            env: pair_texts(self.env@),
            stdin: self.stdin,
            stdout: self.stdout,
            stderr: self.stderr,
        }
    }
}

/// The secure-shell command line that the tunnel tool runs as its
/// transport: the port, the options that make it give up on a broken
/// forward and keep the link alive, and, for a password, the options that
/// allow the password alone and ask for it once.
pub open spec fn transport_command(port: u16, with_password: bool) -> Seq<char> {
    let base = "ssh -p "@ + decimal(port as nat)
        + " -o ExitOnForwardFailure=yes -o ServerAliveInterval=15 -o ServerAliveCountMax=3"@;
    if with_password {
        base
            + " -o PreferredAuthentications=password -o PubkeyAuthentication=no -o NumberOfPasswordPrompts=1"@
    } else {
        base
    }
}

/// The arguments of the tunnel tool for a request: forward name lookups,
/// the remote end, every network, the method, the host itself left out of
/// the tunnel, and the transport command.
pub open spec fn tunnel_args(request: RequestModel) -> Seq<Seq<char>> {
    seq![
        "--dns"@,
        "-r"@,
        request.remote_target(),
        "0.0.0.0/0"@,
        "--method"@,
        "auto"@,
        "-x"@,
        request.host,
        "-e"@,
        transport_command(request.port, request.password is Some),
    ]
}

/// What the child's environment gets for password authentication: the
/// password under the variable that the helper prints, the helper as the
/// program that the secure shell asks, the order to ask it in any case, and
/// a display name that the secure shell insists on.
pub open spec fn askpass_env(password: Seq<char>, helper_path: Seq<char>) -> Seq<
    (Seq<char>, Seq<char>),
> {
    seq![
        (secret_variable_text(), password),
        ("SSH_ASKPASS"@, helper_path),
        ("SSH_ASKPASS_REQUIRE"@, "force"@),
        ("DISPLAY"@, ":0"@),
    ]
}

/// What the child's environment gets for a request. Without a password, or
/// without a helper to print it, it gets nothing.
pub open spec fn tunnel_env(request: RequestModel, helper_path: Option<Seq<char>>) -> Seq<
    (Seq<char>, Seq<char>),
> {
    match (request.password, helper_path) {
        (Some(password), Some(path)) => askpass_env(password, path),
        _ => Seq::empty(),
    }
}

/// The process to start for a request.
pub open spec fn invocation_for(
    request: RequestModel,
    helper_path: Option<Seq<char>>,
) -> InvocationModel {
    InvocationModel {
        program: "sshuttle"@,
        args: tunnel_args(request),
        env: tunnel_env(request, helper_path),
        stdin: StreamPolicy::Closed,
        stdout: StreamPolicy::Discarded,
        stderr: StreamPolicy::Captured,
    }
}

fn push_pair(v: &mut Vec<(String, String)>, name: &str, value: &str)
    ensures
        pair_texts(final(v)@) == pair_texts(old(v)@).push((name@, value@)),
{
    v.push((String::from_str(name), String::from_str(value)));
    assert(pair_texts(v@) =~= pair_texts(old(v)@).push((name@, value@)));
}

/// Writes the transport command for `port`.
pub fn build_transport_command(port: u16, with_password: bool) -> (r: String)
    ensures
        r@ == transport_command(port, with_password),
{
    let mut r = String::from_str("ssh -p ");
    r.append(render_decimal(port as u32).as_str());
    r.append(" -o ExitOnForwardFailure=yes -o ServerAliveInterval=15 -o ServerAliveCountMax=3");
    if with_password {
        r.append(
            " -o PreferredAuthentications=password -o PubkeyAuthentication=no -o NumberOfPasswordPrompts=1",
        );
    }
    r
}

impl Invocation {
    /// Builds the process to start for `request`. `helper_path` is where the
    /// credential helper was written, if one was; it is used only together
    /// with the request's password.
    pub fn for_request(request: &ConnectionRequest, helper_path: Option<&str>) -> (r: Invocation)
        ensures
            r@ == invocation_for(request@, crate::request::slice_text_of(helper_path)),
    {
        let password = request.password();
        let mut args: Vec<String> = Vec::new();
        assert(texts(args@) =~= Seq::<Seq<char>>::empty());
        push_text(&mut args, "--dns");
        push_text(&mut args, "-r");
        push_text(&mut args, request.remote_target().as_str());
        push_text(&mut args, "0.0.0.0/0");
        push_text(&mut args, "--method");
        push_text(&mut args, "auto");
        push_text(&mut args, "-x");
        push_text(&mut args, request.host());
        push_text(&mut args, "-e");
        push_text(&mut args, build_transport_command(request.port(), password.is_some()).as_str());
        assert(texts(args@) =~= tunnel_args(request@));
        let mut env: Vec<(String, String)> = Vec::new();
        assert(pair_texts(env@) =~= Seq::<(Seq<char>, Seq<char>)>::empty());
        match (password, helper_path) {
            (Some(secret), Some(path)) => {
                push_pair(&mut env, secret_variable(), secret);
                push_pair(&mut env, "SSH_ASKPASS", path);
                push_pair(&mut env, "SSH_ASKPASS_REQUIRE", "force");
                push_pair(&mut env, "DISPLAY", ":0");
                assert(pair_texts(env@) =~= askpass_env(secret@, path@));
            },
            _ => {},
        }
        Invocation {
            program: String::from_str("sshuttle"),
            args,
            env,
            stdin: StreamPolicy::Closed,
            stdout: StreamPolicy::Discarded,
            stderr: StreamPolicy::Captured,
        }
    }
}

/// The arguments never depend on what the password is, only on whether
/// there is one: the password reaches the child through its environment and
/// never through its command line.
pub proof fn lemma_args_ignore_password(a: RequestModel, b: RequestModel)
    requires
        a.host == b.host,
        a.username == b.username,
        a.port == b.port,
        a.password is Some <==> b.password is Some,
    ensures
        tunnel_args(a) == tunnel_args(b),
{
}

/// Without a password nothing is added to the child's environment and the
/// transport is not told to use a password.
pub proof fn lemma_no_password_no_env(request: RequestModel, helper_path: Option<Seq<char>>)
    requires
        request.password is None,
    ensures
        invocation_for(request, helper_path).env.len() == 0,
        invocation_for(request, helper_path).args[9] == transport_command(request.port, false),
{
}

} // verus!
