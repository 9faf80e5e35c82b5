//! The answers of commands: a text in words, either of what was done or of
//! why nothing was done.

use vstd::prelude::*;

verus! {

/// The value of a reply.
pub open spec fn reply_view(r: Result<String, String>) -> Result<Seq<char>, Seq<char>> {
    match r {
        Ok(text) => Ok(text@),
        Err(text) => Err(text@),
    }
}

/// A refusal.
pub open spec fn refused(text: Seq<char>) -> Result<Seq<char>, Seq<char>> {
    Err(text)
}

/// A reply to a command that was carried out.
pub open spec fn accepted(text: Seq<char>) -> Result<Seq<char>, Seq<char>> {
    Ok(text)
}

/// The reply `done` where nothing stood in the way, the refusal otherwise.
pub open spec fn reply_unless(refusal: Option<Seq<char>>, done: Seq<char>) -> Result<
    Seq<char>,
    Seq<char>,
> {
    match refusal {
        None => Ok(done),
        Some(text) => Err(text),
    }
}

/// The refusal that a result without a value holds, if any.
pub open spec fn refusal_of(r: Result<(), String>) -> Option<Seq<char>> {
    match r {
        Ok(_) => None,
        Err(text) => Some(text@),
    }
}

} // verus!
