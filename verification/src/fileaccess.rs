//! Where the files of a user lie: paths below the home directory.

use crate::text::{chars_of, appended, text_of};
use vstd::prelude::*;

verus! {

/// The directory below home in which files lie that are named without a
/// tilde.
pub open spec fn files_directory() -> Seq<char> {
    "salieri_files/"@
}

/// The part of a path that lies below the home directory, for a path that is
/// `~` or begins with `~/`; a refusal for every other path.
pub open spec fn below_home(path: Seq<char>) -> Result<Seq<char>, Seq<char>> {
    if path == seq!['~'] {
        Ok(Seq::empty())
    } else if path.len() >= 2 && path[0] == '~' && path[1] == '/' {
        Ok(path.skip(2))
    } else {
        Err("something weird happened"@)
    }
}

/// Where the file that a user names lies below the home directory: a name
/// that begins with a tilde is taken from home, every other name from the
/// files directory. The empty name is refused.
pub open spec fn user_path(name: Seq<char>) -> Result<Seq<char>, Seq<char>> {
    if name.len() == 0 {
        Err("no good!"@)
    } else if name[0] == '~' {
        below_home(name)
    } else {
        Ok(files_directory() + name)
    }
}

/// The value of a path or a refusal.
pub open spec fn path_view(r: Result<String, String>) -> Result<Seq<char>, Seq<char>> {
    match r {
        Ok(text) => Ok(text@),
        Err(text) => Err(text@),
    }
}

/// Takes the tilde off a path: the part below the home directory of a path
/// that is `~` or begins with `~/`.
pub fn expand_tilde(path: &str) -> (r: Result<String, String>)
    ensures
        path_view(r) == below_home(path@),
{
    let chars = chars_of(path);
    if chars.len() == 1 && chars[0] == '~' {
        assert(path@ =~= seq!['~']);
        let home = String::new();
        Ok(home)
    } else if chars.len() >= 2 && chars[0] == '~' && chars[1] == '/' {
        let rest = text_of(&chars, 2, chars.len());
        Ok(rest)
    } else {
        Err(String::from_str("something weird happened"))
    }
}

/// Where the file that a user names lies below the home directory.
pub fn process_file(name: &str) -> (r: Result<String, String>)
    ensures
        path_view(r) == user_path(name@),
{
    let chars = chars_of(name);
    if chars.len() == 0 {
        Err(String::from_str("no good!"))
    } else if chars[0] == '~' {
        expand_tilde(name)
    } else {
        Ok(appended("salieri_files/", name))
    }
}

} // verus!
