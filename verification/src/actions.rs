//! What is printed: a greeting at startup, and a line for the entry into
//! each of the first three frames.

use vstd::prelude::*;

verus! {

/// The text of the line for the entry into `frame`, if that frame has one.
pub open spec fn message_text(frame: nat) -> Option<Seq<char>> {
    if frame == 0 {
        Some("frame zero"@)
    } else if frame == 1 {
        Some("frame one"@)
    } else if frame == 2 {
        Some("frame two"@)
    } else {
        None
    }
}

/// The line printed once at startup.
pub fn greeting() -> (text: &'static str)
    ensures
        text@ == "hello world!"@,
{
    "hello world!"
}

/// The line to print on entry into `frame`: one for each of the frames 0, 1
/// and 2, none for any other.
pub fn frame_message(frame: usize) -> (message: Option<&'static str>)
    ensures
        match message {
            Some(text) => message_text(frame as nat) == Some(text@),
            None => message_text(frame as nat) is None,
        },
{
    if frame == 0 {
        Some("frame zero")
    } else if frame == 1 {
        Some("frame one")
    } else if frame == 2 {
        Some("frame two")
    } else {
        None
    }
}

} // verus!
