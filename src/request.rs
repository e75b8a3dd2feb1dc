//! The request that creates a local peer record, and its field rules.

use vstd::prelude::*;
use vstd::string::*;
use validator::ValidateEmail;

verus! {

/// Whether `validator` accepts the text as an e-mail address.
pub uninterp spec fn email_accepted(s: Seq<char>) -> bool;

/// Relies on `validator::ValidateEmail::validate_email` for `String`: the HTML5
/// address check, a function of the text alone, which refuses any text
/// without an `@`.
#[verifier::external_body]
fn check_email(s: &String) -> (r: bool)
    ensures
        r == email_accepted(s@),
        !s@.contains('@') ==> !r,
{
    s.validate_email()
}

/// Fields of a new local peer.
#[derive(Debug, Clone, PartialEq, Eq)]
pub struct CreateNodeRequest {
    pub name: String,
    pub host: String,
    pub port: i32,
    pub protocol: String,
    pub description: Option<String>,
    pub max_connections: i32,
    pub allow_relay: bool,
    pub network_name: String,
    pub network_secret: Option<String>,
    pub qq_number: Option<String>,
    pub wechat: Option<String>,
    pub mail: Option<String>,
}

/// The mathematical value of a [`CreateNodeRequest`].
pub struct RequestModel {
    pub name: Seq<char>,
    pub host: Seq<char>,
    pub port: i32,
    pub protocol: Seq<char>,
    pub description: Option<Seq<char>>,
    pub max_connections: i32,
    pub allow_relay: bool,
    pub network_name: Seq<char>,
    pub network_secret: Option<Seq<char>>,
    pub qq_number: Option<Seq<char>>,
    pub wechat: Option<Seq<char>>,
    pub mail: Option<Seq<char>>,
}

pub open spec fn text_view(o: Option<String>) -> Option<Seq<char>> {
    match o {
        Some(s) => Some(s@),
        None => None,
    }
}

impl View for CreateNodeRequest {
    type V = RequestModel;

    open spec fn view(&self) -> RequestModel {
        RequestModel {
            name: self.name@,
            host: self.host@,
            port: self.port,
            protocol: self.protocol@,
            description: text_view(self.description),
            max_connections: self.max_connections,
            allow_relay: self.allow_relay,
            network_name: self.network_name@,
            network_secret: text_view(self.network_secret),
            qq_number: text_view(self.qq_number),
            wechat: text_view(self.wechat),
            mail: text_view(self.mail),
        }
    }
}

/// The first field of a request that breaks its rule.
#[derive(Debug, Clone, Copy, PartialEq, Eq, Structural)]
pub enum InvalidField {
    Name,
    Host,
    Port,
    Protocol,
    Description,
    MaxConnections,
    NetworkName,
    NetworkSecret,
    QqNumber,
    Wechat,
    Mail,
}

/// The text has between `min` and `max` characters.
pub open spec fn chars_within(s: Seq<char>, min: int, max: int) -> bool {
    min <= s.len() <= max
}

/// An absent text passes; a present one has at most `max` characters.
pub open spec fn optional_chars_at_most(o: Option<Seq<char>>, max: int) -> bool {
    match o {
        Some(s) => s.len() <= max,
        None => true,
    }
}

pub open spec fn mail_ok(o: Option<Seq<char>>) -> bool {
    match o {
        Some(s) => email_accepted(s) && s.len() <= 100,
        None => true,
    }
}

/// The first field, in declaration order, whose rule the request breaks.
pub open spec fn first_invalid(r: RequestModel) -> Option<InvalidField> {
    if !chars_within(r.name, 1, 100) {
        Some(InvalidField::Name)
    } else if !chars_within(r.host, 1, 255) {
        Some(InvalidField::Host)
    } else if !(1 <= r.port <= 65535) {
        Some(InvalidField::Port)
    } else if !chars_within(r.protocol, 1, 20) {
        Some(InvalidField::Protocol)
    } else if !optional_chars_at_most(r.description, 500) {
        Some(InvalidField::Description)
    } else if !(1 <= r.max_connections <= 10000) {
        Some(InvalidField::MaxConnections)
    } else if !chars_within(r.network_name, 1, 100) {
        Some(InvalidField::NetworkName)
    } else if !optional_chars_at_most(r.network_secret, 100) {
        Some(InvalidField::NetworkSecret)
    } else if !optional_chars_at_most(r.qq_number, 20) {
        Some(InvalidField::QqNumber)
    } else if !optional_chars_at_most(r.wechat, 50) {
        Some(InvalidField::Wechat)
    } else if !mail_ok(r.mail) {
        Some(InvalidField::Mail)
    } else {
        None
    }
}

fn within(s: &String, min: usize, max: usize) -> (r: bool)
    ensures
        r == chars_within(s@, min as int, max as int),
{
    let n = s.as_str().unicode_len();
    min <= n && n <= max
}

fn optional_at_most(o: &Option<String>, max: usize) -> (r: bool)
    ensures
        r == optional_chars_at_most(text_view(*o), max as int),
{
    match o {
        Some(s) => s.as_str().unicode_len() <= max,
        None => true,
    }
}

impl CreateNodeRequest {
    /// Checks every field rule; the error names the first field that breaks one.
    pub fn validate(&self) -> (r: Result<(), InvalidField>)
        ensures
            r is Ok <==> first_invalid(self@) is None,
            r matches Err(f) ==> first_invalid(self@) == Some(f),
    {
        if !within(&self.name, 1, 100) {
            return Err(InvalidField::Name);
        }
        if !within(&self.host, 1, 255) {
            return Err(InvalidField::Host);
        }
        if !(1 <= self.port && self.port <= 65535) {
            return Err(InvalidField::Port);
        }
        if !within(&self.protocol, 1, 20) {
            return Err(InvalidField::Protocol);
        }
        if !optional_at_most(&self.description, 500) {
            return Err(InvalidField::Description);
        }
        if !(1 <= self.max_connections && self.max_connections <= 10000) {
            return Err(InvalidField::MaxConnections);
        }
        if !within(&self.network_name, 1, 100) {
            return Err(InvalidField::NetworkName);
        }
        if !optional_at_most(&self.network_secret, 100) {
            return Err(InvalidField::NetworkSecret);
        }
        if !optional_at_most(&self.qq_number, 20) {
            return Err(InvalidField::QqNumber);
        }
        if !optional_at_most(&self.wechat, 50) {
            return Err(InvalidField::Wechat);
        }
        match &self.mail {
            Some(m) => {
                if !(check_email(m) && m.as_str().unicode_len() <= 100) {
                    return Err(InvalidField::Mail);
                }
            },
            None => {},
        }
        Ok(())
    }
}

} // verus!
