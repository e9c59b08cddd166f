//! What holds of the output of every concatenation.

use crate::argument::{planned, planned_for, ArgumentModel, StepModel};
use crate::buffer::{accumulated, joined, output};
use crate::engine::{allows, fits};
use crate::json::json_text;
use crate::options::OptionsModel;
use crate::quoting::{lemma_stripped_wrapped, lemma_wrapped_injective, stripped, wrapped};
use serde_json::Value as Json;
use vstd::prelude::*;

verus! {

/// One scalar alone, without a sub-template and without quotes, gives its own
/// text as the output, whatever the separator.
pub proof fn lemma_single_scalar(
    value: Json,
    path: Option<Seq<Seq<char>>>,
    options: OptionsModel,
    has_fragment: bool,
    texts: Seq<Seq<char>>,
)
    requires
        !options.has_sub_template,
        !options.quotes,
        fits(planned(seq![ArgumentModel::Scalar { value, path }], options), texts, has_fragment),
    ensures
        output(texts, options) == json_text(value),
{
    let arguments = seq![ArgumentModel::Scalar { value, path }];
    let steps = planned(arguments, options);
    assert(arguments.drop_last() =~= Seq::<ArgumentModel>::empty());
    assert(planned(arguments.drop_last(), options) =~= Seq::<StepModel>::empty());
    assert(steps =~= seq![StepModel::Literal(json_text(value))]);
    assert(allows(steps[0], texts[0], has_fragment));
    assert(texts =~= seq![json_text(value)]);
    assert(texts.drop_last() =~= Seq::<Seq<char>>::empty());
    reveal_with_fuel(accumulated, 2);
    reveal_with_fuel(joined, 2);
}

/// A text joined from two parts that both hold something is the join of the
/// first part, the separator, and the join of the second part: between any
/// two neighbours stands the separator, once.
pub proof fn lemma_joined_split(first: Seq<Seq<char>>, second: Seq<Seq<char>>, separator: Seq<char>)
    requires
        first.len() > 0,
        second.len() > 0,
    ensures
        joined(first + second, separator) == joined(first, separator) + separator + joined(
            second,
            separator,
        ),
    decreases second.len(),
{
    let whole = first + second;
    assert(whole.last() == second.last());
    if second.len() == 1 {
        assert(whole.drop_last() =~= first);
    } else {
        assert(whole.drop_last() =~= first + second.drop_last());
        lemma_joined_split(first, second.drop_last(), separator);
        assert(joined(whole, separator) =~= joined(first, separator) + separator + joined(
            second,
            separator,
        ));
    }
}

/// The settings `options` with `quotes` switched on or off.
pub open spec fn with_quotes(options: OptionsModel, quotes: bool) -> OptionsModel {
    OptionsModel { quotes, ..options }
}

/// Quotes change no content: the buffer accumulated with quotes holds as
/// many texts as the one accumulated without, and each of its texts, with
/// the marks taken off, is the text that stands at its place in the other.
pub proof fn lemma_quotes_are_structural(texts: Seq<Seq<char>>, options: OptionsModel)
    ensures
        accumulated(texts, with_quotes(options, true)).len() == accumulated(
            texts,
            with_quotes(options, false),
        ).len(),
        forall|i: int|
            0 <= i < accumulated(texts, with_quotes(options, true)).len() ==> (
            #[trigger] accumulated(texts, with_quotes(options, true))[i]) == wrapped(
                accumulated(texts, with_quotes(options, false))[i],
                with_quotes(options, true).mark(),
                true,
            ),
        forall|i: int|
            0 <= i < accumulated(texts, with_quotes(options, true)).len() ==> stripped(
                #[trigger] accumulated(texts, with_quotes(options, true))[i],
                with_quotes(options, true).mark(),
            ) == accumulated(texts, with_quotes(options, false))[i],
    decreases texts.len(),
{
    let on = with_quotes(options, true);
    let off = with_quotes(options, false);
    let mark = on.mark();
    if texts.len() > 0 {
        let front = texts.drop_last();
        let text = texts.last();
        lemma_quotes_are_structural(front, options);
        let before_on = accumulated(front, on);
        let before_off = accumulated(front, off);
        let after_on = accumulated(texts, on);
        let after_off = accumulated(texts, off);
        if text.len() > 0 {
            let candidate = wrapped(text, mark, true);
            assert(on.quoted(text) == candidate);
            assert(off.quoted(text) == text);
            if before_on.contains(candidate) {
                let i = choose|i: int| 0 <= i < before_on.len() && before_on[i] == candidate;
                lemma_wrapped_injective(before_off[i], text, mark, true);
                assert(before_off[i] == text);
            }
            if before_off.contains(text) {
                let i = choose|i: int| 0 <= i < before_off.len() && before_off[i] == text;
                assert(before_on[i] == candidate);
            }
            assert(before_on.contains(candidate) == before_off.contains(text));
        }
        assert forall|i: int| 0 <= i < after_on.len() implies (#[trigger] after_on[i]) == wrapped(
            after_off[i],
            mark,
            true,
        ) by {
            if i < before_on.len() {
                assert(after_on[i] == before_on[i]);
                assert(after_off[i] == before_off[i]);
            }
        }
    }
    assert forall|i: int| 0 <= i < accumulated(texts, on).len() implies stripped(
        #[trigger] accumulated(texts, on)[i],
        mark,
    ) == accumulated(texts, off)[i] by {
        lemma_stripped_wrapped(accumulated(texts, off)[i], mark);
    }
}

/// The settings `options` with `single_quote` switched on or off.
pub open spec fn with_single_quote(options: OptionsModel, single_quote: bool) -> OptionsModel {
    OptionsModel { single_quote, ..options }
}

/// Without `quotes` the switch `single_quote` changes nothing: the buffer is
/// the same with it and without it.
pub proof fn lemma_single_quote_needs_quotes(texts: Seq<Seq<char>>, options: OptionsModel)
    requires
        !options.quotes,
    ensures
        accumulated(texts, with_single_quote(options, true)) == accumulated(
            texts,
            with_single_quote(options, false),
        ),
        output(texts, with_single_quote(options, true)) == output(
            texts,
            with_single_quote(options, false),
        ),
    decreases texts.len(),
{
    if texts.len() > 0 {
        lemma_single_quote_needs_quotes(texts.drop_last(), options);
    }
}

/// The keys of `entries`, in order.
pub open spec fn keys_of(entries: Seq<(Seq<char>, Json)>) -> Seq<Seq<char>> {
    Seq::new(entries.len(), |i: int| entries[i].0)
}

/// A mapping alone, without a sub-template, gives its keys and nothing of
/// its values: the element texts are the keys, whatever `distinct` and
/// `quotes` say, so two mappings with the same keys give the same output.
pub proof fn lemma_mapping_gives_keys(
    entries: Seq<(Seq<char>, Json)>,
    options: OptionsModel,
    has_fragment: bool,
    texts: Seq<Seq<char>>,
)
    requires
        !options.has_sub_template,
        fits(planned(seq![ArgumentModel::Mapping(entries)], options), texts, has_fragment),
    ensures
        texts == keys_of(entries),
        output(texts, options) == output(keys_of(entries), options),
{
    let arguments = seq![ArgumentModel::Mapping(entries)];
    let steps = planned(arguments, options);
    assert(arguments.drop_last() =~= Seq::<ArgumentModel>::empty());
    assert(planned(arguments.drop_last(), options) =~= Seq::<StepModel>::empty());
    assert(steps =~= planned_for(arguments.last(), options));
    assert forall|i: int| 0 <= i < texts.len() implies texts[i] == keys_of(entries)[i] by {
        assert(allows(steps[i], texts[i], has_fragment));
    }
    assert(texts =~= keys_of(entries));
}

} // verus!
