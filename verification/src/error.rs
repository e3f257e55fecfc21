//! The ways in which a profile operation can be refused.

use vstd::prelude::*;
use vstd::string::*;

verus! {

/// Why an operation on the profile store did not go through.
#[derive(Debug)]
pub enum ProfileError {
    /// No profile has the given name.
    NoSuchProfile(String),
    /// A profile with the given name exists already.
    AlreadyExists(String),
    /// The platform names no configuration directory for this user.
    NoConfigDir,
    /// The platform names no home directory for this user.
    NoHomeDir,
}

/// `"` followed by `name` and another `"`.
pub open spec fn quoted(name: Seq<char>) -> Seq<char> {
    "\""@ + name + "\""@
}

/// The text shown to the user for each error.
pub open spec fn error_message(e: ProfileError) -> Seq<char> {
    match e {
        ProfileError::NoSuchProfile(n) => "no profile named "@ + quoted(n@),
        ProfileError::AlreadyExists(n) => "profile "@ + quoted(n@) + " already exists"@,
        ProfileError::NoConfigDir => "could not find config directory"@,
        ProfileError::NoHomeDir => "could not find home directory"@,
    }
}

impl ProfileError {
    /// The message that tells the user what went wrong.
    pub fn message(&self) -> (r: String)
        ensures
            r@ == error_message(*self),
    {
        match self {
            ProfileError::NoSuchProfile(n) => {
                let mut m = String::from_str("no profile named \"");
                m.append(n.as_str());
                m.append("\"");
                proof {
                    reveal_strlit("no profile named \"");
                    reveal_strlit("no profile named ");
                    reveal_strlit("\"");
                }
                m
            },
            ProfileError::AlreadyExists(n) => {
                let mut m = String::from_str("profile \"");
                m.append(n.as_str());
                m.append("\" already exists");
                proof {
                    reveal_strlit("profile \"");
                    reveal_strlit("profile ");
                    reveal_strlit("\"");
                    reveal_strlit("\" already exists");
                    reveal_strlit(" already exists");
                }
                m
            },
            ProfileError::NoConfigDir => String::from_str("could not find config directory"),
            ProfileError::NoHomeDir => String::from_str("could not find home directory"),
        }
    }
}

} // verus!
