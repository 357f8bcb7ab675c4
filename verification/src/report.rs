//! What becomes of a panic.
use crate::text::{contains_text, law_occurs_between, occurs_in, opt_text};
use vstd::prelude::*;

verus! {

/// The message of a panic, from its payload as an owned and as a borrowed string.
pub open spec fn panic_text(owned: Option<Seq<char>>, borrowed: Option<Seq<char>>) -> Seq<char> {
    match (owned, borrowed) {
        (Some(text), _) => text,
        (None, Some(text)) => text,
        (None, None) => "unknown error"@,
    }
}

/// The message is the payload itself, an owned one before a borrowed one; a payload that is neither
/// has no message of its own.
pub proof fn law_panic_text(text: Seq<char>, borrowed: Option<Seq<char>>)
    ensures
        panic_text(Some(text), borrowed) == text,
        panic_text(None, Some(text)) == text,
        panic_text(None, None) == "unknown error"@,
{
}

/// Takes the message of a panic from its payload.
pub fn panic_message(owned: Option<&str>, borrowed: Option<&str>) -> (message: String)
    ensures
        message@ == panic_text(opt_text(owned), opt_text(borrowed)),
{
    match owned {
        Some(text) => text.to_owned(),
        None => match borrowed {
            Some(text) => text.to_owned(),
            None => "unknown error".to_owned(),
        },
    }
}

/// Whether the program goes on after a panic: it does after a failed unwrap in a file whose path
/// speaks of threads.
pub open spec fn tolerated(file: Option<Seq<char>>, message: Seq<char>) -> bool {
    match file {
        Some(file) => occurs_in("thread"@, file) && occurs_in("unwrap"@, message),
        None => false,
    }
}

/// The program goes on exactly where the file is known, its path has `thread` somewhere in it, and
/// the message has `unwrap` somewhere in it.
pub proof fn law_tolerated(file: Seq<char>, message: Seq<char>)
    ensures
        !tolerated(None, message),
        tolerated(Some(file), message) <==> {
            &&& exists|a: Seq<char>, b: Seq<char>| file == #[trigger] (a + "thread"@ + b)
            &&& exists|a: Seq<char>, b: Seq<char>| message == #[trigger] (a + "unwrap"@ + b)
        },
{
    law_occurs_between("thread"@, file);
    law_occurs_between("unwrap"@, message);
}

/// Decides whether the program goes on after a panic in a file, if that is known.
pub fn is_tolerated(file: Option<&str>, message: &str) -> (goes_on: bool)
    ensures
        goes_on == tolerated(opt_text(file), message@),
{
    match file {
        Some(file) => contains_text(file, "thread") && contains_text(message, "unwrap"),
        None => false,
    }
}

} // verus!
