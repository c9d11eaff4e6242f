//! Parse-and-validate wrappers around raw text: holding one of these values
//! means its constraint has been checked.

use vstd::prelude::*;
use vstd::string::*;

verus! {

/// Fewest characters a password may have.
pub const MIN_PASSWORD_LEN: usize = 8;

/// A password is acceptable when it has at least `MIN_PASSWORD_LEN` characters.
pub open spec fn password_acceptable(s: Seq<char>) -> bool {
    s.len() >= MIN_PASSWORD_LEN
}

/// The name an account is known by.
pub struct Username(String);

impl View for Username {
    type V = Seq<char>;

    closed spec fn view(&self) -> Seq<char> {
        self.0@
    }
}

impl Username {
    /// Every string is accepted as a username.
    pub fn try_from(value: String) -> (r: Result<Username, String>)
        ensures
            r matches Ok(u) && u@ == value@,
    {
        Ok(Username(value))
    }

    pub fn as_ref(&self) -> (r: &str)
        ensures
            r@ == self@,
    {
        self.0.as_str()
    }

    /// The username as an owned string.
    pub fn to_string(&self) -> (r: String)
        ensures
            r@ == self@,
    {
        self.0.clone()
    }
}

/// A plaintext password of acceptable length; it is hashed before storage.
pub struct Password(String);

impl View for Password {
    type V = Seq<char>;

    closed spec fn view(&self) -> Seq<char> {
        self.0@
    }
}

impl Password {
    /// Accepts the text when it has at least `MIN_PASSWORD_LEN` characters.
    pub fn try_from(value: String) -> (r: Result<Password, String>)
        ensures
            r is Ok <==> password_acceptable(value@),
            r matches Ok(p) ==> p@ == value@,
            r matches Err(e) ==> e@ == "password is too short"@,
    {
        if value.as_str().unicode_len() < MIN_PASSWORD_LEN {
            Err(String::from_str("password is too short"))
        } else {
            Ok(Password(value))
        }
    }

    pub fn as_ref(&self) -> (r: &str)
        ensures
            r@ == self@,
    {
        self.0.as_str()
    }

    /// The password as an owned string.
    pub fn to_string(&self) -> (r: String)
        ensures
            r@ == self@,
    {
        self.0.clone()
    }
}

/// What is shown of an account: its username, never its hash or salt.
pub struct Account {
    username: Username,
}

impl View for Account {
    type V = Seq<char>;

    closed spec fn view(&self) -> Seq<char> {
        self.username@
    }
}

impl Account {
    pub fn new(username: Username) -> (r: Account)
        ensures
            r@ == username@,
    {
        Account { username }
    }

    pub fn username(&self) -> (r: &str)
        ensures
            r@ == self@,
    {
        self.username.as_ref()
    }
}

/// The address a link points to.
pub struct URL(String);

impl View for URL {
    type V = Seq<char>;

    closed spec fn view(&self) -> Seq<char> {
        self.0@
    }
}

impl URL {
    /// Every string is accepted as a URL.
    pub fn try_from(value: &str) -> (r: Result<URL, String>)
        ensures
            r matches Ok(u) && u@ == value@,
    {
        Ok(URL(value.to_string()))
    }

    pub fn to_string(&self) -> (r: String)
        ensures
            r@ == self@,
    {
        self.0.clone()
    }
}

/// The display name of a link.
pub struct Name(String);

impl View for Name {
    type V = Seq<char>;

    closed spec fn view(&self) -> Seq<char> {
        self.0@
    }
}

impl Name {
    /// Every string is accepted as a name.
    pub fn try_from(value: &str) -> (r: Result<Name, String>)
        ensures
            r matches Ok(n) && n@ == value@,
    {
        Ok(Name(value.to_string()))
    }

    pub fn to_string(&self) -> (r: String)
        ensures
            r@ == self@,
    {
        self.0.clone()
    }
}

/// A label attached to a link.
pub struct Label(String);

impl View for Label {
    type V = Seq<char>;

    closed spec fn view(&self) -> Seq<char> {
        self.0@
    }
}

impl Label {
    /// Every string is accepted as a label.
    pub fn try_from(value: &str) -> (r: Result<Label, String>)
        ensures
            r matches Ok(l) && l@ == value@,
    {
        Ok(Label(value.to_string()))
    }

    pub fn to_string(&self) -> (r: String)
        ensures
            r@ == self@,
    {
        self.0.clone()
    }
}

} // verus!
