//! The application's place below the home directory of the current user.

use vstd::prelude::*;

use crate::location::store_path::StorePath;

verus! {

/// The application's location based on the current user's home directory.
#[derive(Clone, Copy, Debug, PartialEq, Eq, Structural)]
pub struct HomeLocation;

/// `dirs::home_dir`: the home directory of the current user, read from the
/// environment of the process, or nothing where the platform names none.
/// Nothing is known of the text that comes back.
#[verifier::external_body]
fn home_dir() -> (home: Option<String>) {
    match dirs::home_dir() {
        Some(path) => Some(path.to_string_lossy().into_owned()),
        None => None,
    }
}

impl HomeLocation {
    /// The name of the application's directory.
    pub open spec fn directory() -> Seq<char> {
        ".bdgt"@
    }

    /// Just creates an instance.
    pub fn new() -> (location: Self)
        ensures
            location == HomeLocation,
    {
        HomeLocation
    }

    /// The application's directory below the home directory `home`.
    pub fn root_under(home: &str) -> (root: StorePath)
        ensures
            root@ == seq![home@, Self::directory()],
    {
        let base = StorePath::new(home);
        let root = base.join(".bdgt");
        assert(root@ =~= seq![home@, Self::directory()]);
        root
    }

    /// The application's directory below the home directory of the current
    /// user, or nothing where that user has no home directory.
    pub fn root(&self) -> (root: Option<StorePath>)
        ensures
            root matches Some(path) ==> path@.len() == 2 && path@[1] == Self::directory(),
    {
        Self::root_from(home_dir())
    }

    /// `root` is the application's directory below the home directory `home`
    /// where there is one, and nothing where there is none.
    pub open spec fn is_root_from(home: Option<String>, root: Option<StorePath>) -> bool {
        match home {
            Some(text) => root is Some && root->Some_0@ == seq![text@, Self::directory()],
            None => root is None,
        }
    }

    /// The application's directory for a user whose home directory is `home`:
    /// the directory below `home`, or nothing for a user without a home
    /// directory.
    pub fn root_from(home: Option<String>) -> (root: Option<StorePath>)
        ensures
            Self::is_root_from(home, root),
    {
        match home {
            Some(text) => Some(Self::root_under(text.as_str())),
            None => None,
        }
    }
}

} // verus!
