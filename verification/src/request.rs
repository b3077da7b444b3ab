//! Connection requests: what the front end's form holds, checked and put in
//! order before anything is started.

use crate::text::{decimal, parse_u16, parsed_u16, render_decimal, trim, trimmed};
use vstd::prelude::*;

verus! {

/// The port used where the form's port text is no 16-bit number.
pub const DEFAULT_PORT: u16 = 22;

/// Why a form was turned down.
#[derive(Clone, Copy, Debug, PartialEq, Eq, Structural)]
pub enum ValidationError {
    /// The host is empty once trimmed.
    EmptyHost,
    /// The host is there, but the user name is empty once trimmed.
    EmptyUsername,
}

/// What a checked request holds, as plain text and numbers.
pub struct RequestModel {
    pub label: Option<Seq<char>>,
    pub host: Seq<char>,
    pub port: u16,
    pub username: Seq<char>,
    pub password: Option<Seq<char>>,
}

/// A request that passed the checks: host and user name are trimmed and not
/// empty; a label or a password, where present, is not empty either.
pub struct ConnectionRequest {
    label: Option<String>,
    host: String,
    port: u16,
    username: String,
    password: Option<String>,
}

/// The text inside an optional string.
pub open spec fn text_of(o: Option<String>) -> Option<Seq<char>> {
    match o {
        Some(s) => Some(s@),
        None => None,
    }
}

/// The text inside an optional string slice.
pub open spec fn slice_text_of(o: Option<&str>) -> Option<Seq<char>> {
    match o {
        Some(s) => Some(s@),
        None => None,
    }
}

/// The label that a form's label text stands for: trimmed, and none at all
/// where nothing is left.
pub open spec fn label_of(label: Option<Seq<char>>) -> Option<Seq<char>> {
    match label {
        Some(l) => if trimmed(l).len() > 0 {
            Some(trimmed(l))
        } else {
            None
        },
        None => None,
    }
}

/// The password that a form's password text stands for: taken as it is, and
/// none at all where it is empty.
pub open spec fn password_of(password: Option<Seq<char>>) -> Option<Seq<char>> {
    match password {
        Some(p) => if p.len() > 0 {
            Some(p)
        } else {
            None
        },
        None => None,
    }
}

/// The port that a form's port text stands for.
pub open spec fn port_of(port_text: Seq<char>) -> u16 {
    match parsed_u16(trimmed(port_text)) {
        Some(p) => p,
        None => DEFAULT_PORT,
    }
}

/// What a form holds, as plain values.
pub struct FormModel {
    pub label: Option<Seq<char>>,
    pub host: Seq<char>,
    pub port_text: Seq<char>,
    pub username: Seq<char>,
    pub password: Option<Seq<char>>,
}

/// The form with these fields.
pub open spec fn form_of(
    label: Option<&str>,
    host: &str,
    port_text: &str,
    username: &str,
    password: Option<&str>,
) -> FormModel {
    FormModel {
        label: slice_text_of(label),
        host: host@,
        port_text: port_text@,
        username: username@,
        password: slice_text_of(password),
    }
}

/// The outcome of checking a form: turned down without a host, or with a
/// host and without a user name, white space aside; accepted otherwise,
/// with every field put in order.
pub open spec fn checked(form: FormModel) -> Result<RequestModel, ValidationError> {
    if trimmed(form.host).len() == 0 {
        Err(ValidationError::EmptyHost)
    } else if trimmed(form.username).len() == 0 {
        Err(ValidationError::EmptyUsername)
    } else {
        Ok(
            RequestModel {
                label: label_of(form.label),
                host: trimmed(form.host),
                port: port_of(form.port_text),
                username: trimmed(form.username),
                password: password_of(form.password),
            },
        )
    }
}

/// The outcome of a check, as plain values.
pub open spec fn checked_model(r: Result<ConnectionRequest, ValidationError>) -> Result<
    RequestModel,
    ValidationError,
> {
    match r {
        Ok(request) => Ok(request@),
        Err(e) => Err(e),
    }
}

/// A form is turned down exactly when its host or its user name is empty,
/// white space aside; a form that is accepted gives a well-formed request.
pub proof fn lemma_checked(form: FormModel)
    ensures
        checked(form) is Err <==> trimmed(form.host).len() == 0 || trimmed(form.username).len()
            == 0,
        checked(form) matches Ok(request) ==> request.well_formed(),
{
}

impl RequestModel {
    /// What every checked request satisfies.
    pub open spec fn well_formed(self) -> bool {
        &&& self.host.len() > 0
        &&& self.username.len() > 0
        &&& self.label matches Some(l) ==> l.len() > 0
        &&& self.password matches Some(p) ==> p.len() > 0
    }

    /// `user@host`, the remote end as the tunnel tool wants it.
    pub open spec fn remote_target(self) -> Seq<char> {
        self.username + seq!['@'] + self.host
    }

    /// The name shown for the connection: the label where there is one, else
    /// `user@host:port`.
    pub open spec fn display_name(self) -> Seq<char> {
        match self.label {
            Some(l) => l,
            None => self.username + seq!['@'] + self.host + seq![':'] + decimal(self.port as nat),
        }
    }
}

impl View for ConnectionRequest {
    type V = RequestModel;

    closed spec fn view(&self) -> RequestModel {
        RequestModel {
            label: text_of(self.label),
            host: self.host@,
            port: self.port,
            username: self.username@,
            password: text_of(self.password),
        }
    }
}

/// Reads a form's port text; what is no 16-bit number gives the default.
pub fn parse_port(port_text: &str) -> (port: u16)
    ensures
        port == port_of(port_text@),
{
    match parse_u16(trim(port_text)) {
        Some(p) => p,
        None => DEFAULT_PORT,
    }
}

impl ConnectionRequest {
    #[verifier::type_invariant]
    spec fn inv(self) -> bool {
        self@.well_formed()
    }

    /// Checks a form and puts it in order. A form with no host or no user
    /// name, white space aside, is turned down; everything else is accepted.
    pub fn from_form(
        label: Option<&str>,
        host: &str,
        port_text: &str,
        username: &str,
        password: Option<&str>,
    ) -> (r: Result<ConnectionRequest, ValidationError>)
        ensures
            checked_model(r) == checked(form_of(label, host, port_text, username, password)),
    {
        let host = trim(host);
        if host.unicode_len() == 0 {
            return Err(ValidationError::EmptyHost);
        }
        let username = trim(username);
        if username.unicode_len() == 0 {
            return Err(ValidationError::EmptyUsername);
        }
        let label = match label {
            Some(l) => {
                let l = trim(l);
                if l.unicode_len() > 0 {
                    Some(String::from_str(l))
                } else {
                    None
                }
            },
            None => None,
        };
        let password = match password {
            Some(p) => if p.unicode_len() > 0 {
                Some(String::from_str(p))
            } else {
                None
            },
            None => None,
        };
        Ok(
            ConnectionRequest {
                label,
                host: String::from_str(host),
                port: parse_port(port_text),
                username: String::from_str(username),
                password,
            },
        )
    }

    /// The label, if the form gave one.
    pub fn label(&self) -> (r: Option<&str>)
        ensures
            slice_text_of(r) == self@.label,
            self@.well_formed(),
    {
        proof {
            use_type_invariant(self);
        }
        match &self.label {
            Some(l) => Some(l.as_str()),
            None => None,
        }
    }

    /// The host to connect to.
    pub fn host(&self) -> (r: &str)
        ensures
            r@ == self@.host,
            self@.well_formed(),
    {
        proof {
            use_type_invariant(self);
        }
        self.host.as_str()
    }

    /// The port of the remote secure shell.
    pub fn port(&self) -> (r: u16)
        ensures
            r == self@.port,
    {
        self.port
    }

    /// The user to log in as.
    pub fn username(&self) -> (r: &str)
        ensures
            r@ == self@.username,
            self@.well_formed(),
    {
        proof {
            use_type_invariant(self);
        }
        self.username.as_str()
    }

    /// The password, if the form gave one.
    pub fn password(&self) -> (r: Option<&str>)
        ensures
            slice_text_of(r) == self@.password,
            self@.well_formed(),
    {
        proof {
            use_type_invariant(self);
        }
        match &self.password {
            Some(p) => Some(p.as_str()),
            None => None,
        }
    }

    /// `user@host`, the remote end as the tunnel tool wants it.
    pub fn remote_target(&self) -> (r: String)
        ensures
            r@ == self@.remote_target(),
    {
        proof {
            reveal_strlit("@");
        }
        let mut r = self.username.clone();
        r.append("@");
        r.append(self.host.as_str());
        assert(r@ =~= self@.remote_target());
        r
    }

    /// The name shown for the connection.
    pub fn display_name(&self) -> (r: String)
        ensures
            r@ == self@.display_name(),
    {
        match &self.label {
            Some(l) => l.clone(),
            None => {
                proof {
                    reveal_strlit(":");
                }
                let mut r = self.remote_target();
                r.append(":");
                r.append(render_decimal(self.port as u32).as_str());
                assert(r@ =~= self@.display_name());
                r
            },
        }
    }
}

} // verus!
