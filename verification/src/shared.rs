//! What the three tools have in common: the password of a document.

use vstd::prelude::*;

verus! {

/// A value that must not be printed: it is shown as asterisks.
#[derive(Clone)]
pub struct Secret<T>(pub T);

impl<T> From<T> for Secret<T> {
    fn from(value: T) -> (r: Self)
        ensures
            r.0 == value,
    {
        Secret(value)
    }
}

impl<T> vstd::std_specs::convert::FromSpecImpl<T> for Secret<T> {
    open spec fn obeys_from_spec() -> bool {
        true
    }

    open spec fn from_spec(value: T) -> Self {
        Secret(value)
    }
}

/// `std::fmt::Formatter`: where formatted text is written to; nothing is
/// known of what it holds.
#[verifier::external_type_specification]
#[verifier::external_body]
pub struct ExFormatter<'a>(std::fmt::Formatter<'a>);

/// `std::fmt::Error`: that formatted text could not be written.
#[verifier::external_type_specification]
#[verifier::external_body]
pub struct ExFmtError(std::fmt::Error);

/// `Formatter::write_str`: writes the text to the formatter's output.
/// Nothing is claimed of the result.
#[verifier::external_body]
pub(crate) fn write_text(f: &mut std::fmt::Formatter<'_>, text: &str) -> (r: std::fmt::Result) {
    f.write_str(text)
}

impl<T> std::fmt::Debug for Secret<T> {
    /// Writes asterisks in place of the value.
    fn fmt(&self, f: &mut std::fmt::Formatter<'_>) -> std::fmt::Result {
        write_text(f, "******")
    }
}

impl<T> std::fmt::Display for Secret<T> {
    /// Writes asterisks in place of the value.
    fn fmt(&self, f: &mut std::fmt::Formatter<'_>) -> std::fmt::Result {
        write_text(f, "******")
    }
}

/// The password of a document.
#[derive(Debug, Clone)]
pub enum Password {
    /// The owner password, which lifts every restriction.
    Owner(Secret<String>),
    /// The user password.
    User(Secret<String>),
}

impl Password {
    /// The arguments that hand the password to a tool.
    pub open spec fn flags(&self) -> Seq<Seq<char>> {
        match self {
            Password::Owner(password) => seq!["-opw"@, password.0@],
            Password::User(password) => seq!["-upw"@, password.0@],
        }
    }

    pub fn owner(value: &str) -> (r: Self)
        ensures
            r matches Password::Owner(password) && password.0@ == value@,
    {
        Password::Owner(Secret(value.to_string()))
    }

    pub fn user(value: &str) -> (r: Self)
        ensures
            r matches Password::User(password) && password.0@ == value@,
    {
        Password::User(Secret(value.to_string()))
    }

    /// Appends the password's arguments.
    pub fn push_arg(&self, args: &mut Vec<String>)
        ensures
            final(args).deep_view() == old(args).deep_view() + self.flags(),
    {
        match self {
            Password::Owner(password) => {
                args.push("-opw".to_string());
                args.push(password.0.clone());
            },
            Password::User(password) => {
                args.push("-upw".to_string());
                args.push(password.0.clone());
            },
        }
        assert(args.deep_view() =~= old(args).deep_view() + self.flags());
    }
}

} // verus!
