//! Wrapping a text in marks.

use vstd::prelude::*;
use vstd::string::*;

verus! {

/// The text `subject` between two copies of `mark` when `on` holds, and
/// `subject` itself otherwise.
pub open spec fn wrapped(subject: Seq<char>, mark: Seq<char>, on: bool) -> Seq<char> {
    if on {
        mark + subject + mark
    } else {
        subject
    }
}

/// What is left of `text` once a leading and a trailing `mark` are taken off.
pub open spec fn stripped(text: Seq<char>, mark: Seq<char>) -> Seq<char> {
    text.subrange(mark.len() as int, text.len() - mark.len())
}

/// Puts `wrapper` before and after `subject` when `wrap` is set, and hands
/// `subject` back unchanged otherwise.
pub fn apply_wrapper(subject: String, wrapper: &str, wrap: bool) -> (wrapped_subject: String)
    ensures
        wrapped_subject@ == wrapped(subject@, wrapper@, wrap),
{
    if wrap {
        let mut text = String::from_str(wrapper);
        text.append(subject.as_str());
        text.append(wrapper);
        text
    } else {
        subject
    }
}

/// Taking the marks off a wrapped text gives the text back.
pub proof fn lemma_stripped_wrapped(subject: Seq<char>, mark: Seq<char>)
    ensures
        stripped(wrapped(subject, mark, true), mark) == subject,
        wrapped(subject, mark, true).len() == subject.len() + 2 * mark.len(),
{
    assert(stripped(wrapped(subject, mark, true), mark) =~= subject);
}

/// Wrapping keeps different texts different.
pub proof fn lemma_wrapped_injective(first: Seq<char>, second: Seq<char>, mark: Seq<char>, on: bool)
    requires
        wrapped(first, mark, on) == wrapped(second, mark, on),
    ensures
        first == second,
{
    if on {
        lemma_stripped_wrapped(first, mark);
        lemma_stripped_wrapped(second, mark);
    }
}

} // verus!
