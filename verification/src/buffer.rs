//! The texts that a concatenation has produced, and how they are accepted
//! and joined.

use crate::options::{Options, OptionsModel};
use vstd::prelude::*;
use vstd::string::*;

verus! {

/// The texts that `strings` hold, in order.
pub open spec fn texts_of(strings: Seq<String>) -> Seq<Seq<char>> {
    Seq::new(strings.len(), |i: int| strings[i]@)
}

/// `texts` written one after the other with `separator` between each two
/// neighbours: nothing for no text, the text itself for one.
pub open spec fn joined(texts: Seq<Seq<char>>, separator: Seq<char>) -> Seq<char>
    decreases texts.len(),
{
    if texts.len() == 0 {
        Seq::empty()
    } else if texts.len() == 1 {
        texts.last()
    } else {
        joined(texts.drop_last(), separator) + separator + texts.last()
    }
}

/// The buffer once `candidate` was put to it: under `distinct` a candidate
/// that the buffer holds already is left out, any other goes to the end.
pub open spec fn accepted(buffer: Seq<Seq<char>>, candidate: Seq<char>, distinct: bool) -> Seq<
    Seq<char>,
> {
    if distinct && buffer.contains(candidate) {
        buffer
    } else {
        buffer.push(candidate)
    }
}

/// The buffer once an element's text was offered to it: an empty text is
/// dropped before any quoting, any other is quoted and then put to the buffer.
pub open spec fn offered(buffer: Seq<Seq<char>>, text: Seq<char>, options: OptionsModel) -> Seq<
    Seq<char>,
> {
    if text.len() == 0 {
        buffer
    } else {
        accepted(buffer, options.quoted(text), options.distinct)
    }
}

/// The buffer that the element texts `texts` leave behind when they are
/// offered to an empty buffer from first to last.
pub open spec fn accumulated(texts: Seq<Seq<char>>, options: OptionsModel) -> Seq<Seq<char>>
    decreases texts.len(),
{
    if texts.len() == 0 {
        Seq::empty()
    } else {
        offered(accumulated(texts.drop_last(), options), texts.last(), options)
    }
}

/// The output for the element texts `texts`.
pub open spec fn output(texts: Seq<Seq<char>>, options: OptionsModel) -> Seq<char> {
    joined(accumulated(texts, options), options.separator)
}

/// Whether `element` is the quoted form of a text of `texts` that is not
/// empty.
pub open spec fn carries(element: Seq<char>, texts: Seq<Seq<char>>, options: OptionsModel) -> bool {
    exists|j: int|
        0 <= j < texts.len() && (#[trigger] texts[j]).len() > 0 && element == options.quoted(
            texts[j],
        )
}

/// The quoted forms of the texts of `texts` that are not empty, one for each
/// occurrence and in their order.
pub open spec fn kept(texts: Seq<Seq<char>>, options: OptionsModel) -> Seq<Seq<char>>
    decreases texts.len(),
{
    if texts.len() == 0 {
        Seq::empty()
    } else if texts.last().len() == 0 {
        kept(texts.drop_last(), options)
    } else {
        kept(texts.drop_last(), options).push(options.quoted(texts.last()))
    }
}

/// Every element of the accumulated buffer is the quoted form of a text that
/// is not empty, so it is longer than the two marks alone; and each such text
/// is in the buffer in its quoted form.
pub proof fn lemma_accumulated_carries(texts: Seq<Seq<char>>, options: OptionsModel)
    ensures
        forall|i: int|
            0 <= i < accumulated(texts, options).len() ==> carries(
                #[trigger] accumulated(texts, options)[i],
                texts,
                options,
            ),
        forall|i: int|
            0 <= i < accumulated(texts, options).len() ==> (#[trigger] accumulated(
                texts,
                options,
            )[i]).len() > 2 * options.mark().len(),
        forall|j: int|
            0 <= j < texts.len() && (#[trigger] texts[j]).len() > 0 ==> accumulated(
                texts,
                options,
            ).contains(options.quoted(texts[j])),
    decreases texts.len(),
{
    if texts.len() > 0 {
        let front = texts.drop_last();
        let before = accumulated(front, options);
        let after = accumulated(texts, options);
        let last = texts.last();
        lemma_accumulated_carries(front, options);
        assert forall|i: int| 0 <= i < after.len() implies carries(
            #[trigger] after[i],
            texts,
            options,
        ) && after[i].len() > 2 * options.mark().len() by {
            if i < before.len() {
                assert(after[i] == before[i]);
                assert(carries(before[i], front, options));
                let j = choose|j: int|
                    0 <= j < front.len() && (#[trigger] front[j]).len() > 0 && before[i]
                        == options.quoted(front[j]);
                assert(texts[j] == front[j]);
            } else {
                assert(after[i] == options.quoted(last));
                assert(texts[texts.len() - 1] == last);
            }
        }
        assert forall|j: int| 0 <= j < texts.len() && (#[trigger] texts[j]).len()
            > 0 implies after.contains(options.quoted(texts[j])) by {
            if j < front.len() {
                assert(front[j] == texts[j]);
                assert(before.contains(options.quoted(texts[j])));
                let i = choose|i: int|
                    0 <= i < before.len() && before[i] == options.quoted(texts[j]);
                assert(after[i] == options.quoted(texts[j]));
            } else {
                let quoted = options.quoted(last);
                if options.distinct && before.contains(quoted) {
                } else {
                    assert(after[after.len() - 1] == quoted);
                }
            }
        }
    }
}

/// Under `distinct` no text stands twice in the accumulated buffer.
pub proof fn lemma_accumulated_distinct(texts: Seq<Seq<char>>, options: OptionsModel)
    requires
        options.distinct,
    ensures
        accumulated(texts, options).no_duplicates(),
    decreases texts.len(),
{
    if texts.len() > 0 {
        lemma_accumulated_distinct(texts.drop_last(), options);
    }
}

/// Without `distinct` the accumulated buffer holds every text that is not
/// empty, once for each time it occurs.
pub proof fn lemma_accumulated_keeps_all(texts: Seq<Seq<char>>, options: OptionsModel)
    requires
        !options.distinct,
    ensures
        accumulated(texts, options) == kept(texts, options),
    decreases texts.len(),
{
    if texts.len() > 0 {
        lemma_accumulated_keeps_all(texts.drop_last(), options);
    }
}

/// The ordered texts that one concatenation has produced so far, each in the
/// form in which it will stand in the output.
#[derive(Clone, Debug)]
pub struct OutputBuffer {
    texts: Vec<String>,
}

impl View for OutputBuffer {
    type V = Seq<Seq<char>>;

    closed spec fn view(&self) -> Seq<Seq<char>> {
        texts_of(self.texts@)
    }
}

impl OutputBuffer {
    /// A buffer that holds nothing.
    pub fn new() -> (buffer: OutputBuffer)
        ensures
            buffer@ == Seq::<Seq<char>>::empty(),
    {
        let buffer = OutputBuffer { texts: Vec::new() };
        assert(buffer@ =~= Seq::<Seq<char>>::empty());
        buffer
    }

    /// Whether the buffer holds `candidate`.
    pub fn contains(&self, candidate: &String) -> (found: bool)
        ensures
            found == self@.contains(candidate@),
    {
        let mut i: usize = 0;
        while i < self.texts.len()
            invariant
                i <= self.texts.len(),
                forall|j: int| 0 <= j < i ==> self@[j] != candidate@,
            decreases self.texts.len() - i,
        {
            if self.texts[i] == *candidate {
                assert(self@[i as int] == candidate@);
                return true;
            }
            i += 1;
        }
        false
    }

    /// Puts a finished candidate to the buffer.
    pub fn accept(&mut self, candidate: String, distinct: bool)
        ensures
            final(self)@ == accepted(old(self)@, candidate@, distinct),
    {
        if distinct && self.contains(&candidate) {
        } else {
            self.texts.push(candidate);
            assert(self@ =~= old(self)@.push(candidate@));
        }
    }

    /// Offers the text of one element: drops it if it is empty, quotes it as
    /// `options` say and puts it to the buffer otherwise.
    pub fn offer(&mut self, text: String, options: &Options)
        ensures
            final(self)@ == offered(old(self)@, text@, options@),
    {
        if !text.as_str().is_empty() {
            let candidate = options.quote(text);
            self.accept(candidate, options.distinct);
        }
    }

    /// The texts of the buffer in one string, with `separator` between each
    /// two neighbours.
    pub fn join(&self, separator: &str) -> (text: String)
        ensures
            text@ == joined(self@, separator@),
    {
        let mut text = String::new();
        let mut i: usize = 0;
        while i < self.texts.len()
            invariant
                i <= self.texts.len(),
                text@ == joined(self@.take(i as int), separator@),
            decreases self.texts.len() - i,
        {
            if i > 0 {
                text.append(separator);
            }
            text.append(self.texts[i].as_str());
            proof {
                let next = self@.take(i + 1);
                assert(next.drop_last() =~= self@.take(i as int));
                assert(next.last() == self@[i as int]);
                assert(text@ =~= joined(next, separator@));
            }
            i += 1;
        }
        assert(self@.take(self.texts.len() as int) =~= self@);
        text
    }

    /// The number of texts in the buffer.
    pub fn len(&self) -> (count: usize)
        ensures
            count == self@.len(),
    {
        self.texts.len()
    }

    /// Gives up the buffer for the texts it holds.
    pub fn into_texts(self) -> (texts: Vec<String>)
        ensures
            texts_of(texts@) == self@,
    {
        self.texts
    }
}

/// Offers `texts` from first to last to an empty buffer.
pub fn accumulate(texts: &Vec<String>, options: &Options) -> (buffer: OutputBuffer)
    ensures
        buffer@ == accumulated(texts_of(texts@), options@),
        options.distinct ==> buffer@.no_duplicates(),
        !options.distinct ==> buffer@ == kept(texts_of(texts@), options@),
        forall|i: int|
            0 <= i < buffer@.len() ==> carries(#[trigger] buffer@[i], texts_of(texts@), options@),
        forall|i: int|
            0 <= i < buffer@.len() ==> (#[trigger] buffer@[i]).len() > 2 * options@.mark().len(),
{
    let mut buffer = OutputBuffer::new();
    let mut i: usize = 0;
    while i < texts.len()
        invariant
            i <= texts.len(),
            buffer@ == accumulated(texts_of(texts@).take(i as int), options@),
        decreases texts.len() - i,
    {
        buffer.offer(texts[i].clone(), options);
        proof {
            let next = texts_of(texts@).take(i + 1);
            assert(next.drop_last() =~= texts_of(texts@).take(i as int));
            assert(next.last() == texts@[i as int]@);
        }
        i += 1;
    }
    proof {
        assert(texts_of(texts@).take(texts.len() as int) =~= texts_of(texts@));
        lemma_accumulated_carries(texts_of(texts@), options@);
        if options.distinct {
            lemma_accumulated_distinct(texts_of(texts@), options@);
        } else {
            lemma_accumulated_keeps_all(texts_of(texts@), options@);
        }
    }
    buffer
}

/// The output for the element texts `texts`: they are accumulated, and the
/// buffer is joined with the separator of `options`.
pub fn assemble(texts: &Vec<String>, options: &Options) -> (text: String)
    ensures
        text@ == output(texts_of(texts@), options@),
{
    let buffer = accumulate(texts, options);
    buffer.join(options.separator.as_str())
}

} // verus!
