//! Reading a helper call as the template engine hands it over.

use crate::argument::{classified, models_of, path_model, Argument, ArgumentModel};
use crate::json::{json_shape, json_text, stringify};
use crate::options::{resolved, Options, OptionsModel};
use handlebars::{Helper, PathAndJson, Template};
use serde_json::Value as Json;
use vstd::prelude::*;

verus! {

/// `handlebars::Helper`, one call of a helper as the engine hands it over:
/// the positional parameters, the named ones, and the block if there is one.
/// Nothing inside it is visible here.
#[verifier::external_type_specification]
#[verifier::external_body]
pub struct ExHelper<'rc>(handlebars::Helper<'rc>);

/// `handlebars::PathAndJson`, one parameter of a call: its value, and the
/// path under which the value was looked up, if it was. Nothing inside it is
/// visible here.
#[verifier::external_type_specification]
#[verifier::external_body]
pub struct ExPathAndJson<'rc>(handlebars::PathAndJson<'rc>);

/// The parameter that the call names `name`, if it names one.
pub uninterp spec fn helper_hash(helper: Helper, name: Seq<char>) -> Option<PathAndJson>;

/// The positional parameters of the call, in their order.
pub uninterp spec fn helper_params(helper: Helper) -> Seq<PathAndJson>;

/// Whether the call is a block.
pub uninterp spec fn helper_is_block(helper: Helper) -> bool;

/// Whether the call has a template inside its block.
pub uninterp spec fn helper_has_template(helper: Helper) -> bool;

/// The value of a parameter.
pub uninterp spec fn param_value(param: PathAndJson) -> Json;

/// The path under which the value of a parameter was looked up, if it was.
pub uninterp spec fn param_path(param: PathAndJson) -> Option<Seq<Seq<char>>>;

/// Calls `Helper::hash_get`. Claimed: what it finds depends on the call and
/// the name alone.
#[verifier::external_body]
fn hash_get<'a, 'rc>(helper: &'a Helper<'rc>, name: &str) -> (found: Option<&'a PathAndJson<'rc>>)
    ensures
        match found {
            Some(param) => helper_hash(*helper, name@) == Some(*param),
            None => helper_hash(*helper, name@) is None,
        },
{
    helper.hash_get(name)
}

/// Calls `Helper::params`. Claimed: the parameters depend on the call alone.
#[verifier::external_body]
fn params<'a, 'rc>(helper: &'a Helper<'rc>) -> (all: &'a Vec<PathAndJson<'rc>>)
    ensures
        all@ == helper_params(*helper),
{
    helper.params()
}

/// Calls `Helper::is_block`.
#[verifier::external_body]
fn is_block(helper: &Helper<'_>) -> (yes: bool)
    ensures
        yes == helper_is_block(*helper),
{
    helper.is_block()
}

/// Calls `Helper::template`.
#[verifier::external_body]
pub(crate) fn template<'rc>(helper: &Helper<'rc>) -> (fragment: Option<&'rc Template>)
    ensures
        fragment is Some == helper_has_template(*helper),
{
    helper.template()
}

/// Calls `PathAndJson::value`.
#[verifier::external_body]
fn value<'a>(param: &'a PathAndJson<'_>) -> (held: &'a Json)
    ensures
        *held == param_value(*param),
{
    param.value()
}

/// Calls `PathAndJson::context_path`.
#[verifier::external_body]
fn context_path<'a>(param: &'a PathAndJson<'_>) -> (path: Option<&'a Vec<String>>)
    ensures
        path_model(path) == param_path(*param),
{
    param.context_path()
}

/// The text of the separator that the call names, if it names one.
pub open spec fn named_separator(helper: Helper) -> Option<Seq<char>> {
    match helper_hash(helper, "separator"@) {
        Some(param) => Some(json_text(param_value(param))),
        None => None,
    }
}

/// The settings that the call asks for. A switch is on when the call names
/// it, whatever value it gives it; a name that is none of the five is not
/// looked at. A block counts as a sub-template.
pub open spec fn helper_options(helper: Helper) -> OptionsModel {
    resolved(
        named_separator(helper),
        helper_hash(helper, "distinct"@) is Some,
        helper_hash(helper, "quotes"@) is Some,
        helper_hash(helper, "single_quote"@) is Some,
        helper_hash(helper, "render_all"@) is Some,
        helper_is_block(helper),
    )
}

/// The argument that a parameter is: its value, classified.
pub open spec fn param_argument(param: PathAndJson) -> ArgumentModel {
    classified(json_shape(param_value(param)), param_value(param), param_path(param))
}

/// The arguments of the call: its positional parameters, classified.
pub open spec fn helper_arguments(helper: Helper) -> Seq<ArgumentModel> {
    Seq::new(helper_params(helper).len(), |i: int| param_argument(helper_params(helper)[i]))
}

/// Reads the settings of a call.
pub fn resolve_options(helper: &Helper<'_>) -> (options: Options)
    ensures
        options@ == helper_options(*helper),
{
    let separator = match hash_get(helper, "separator") {
        Some(param) => Some(stringify(value(param))),
        None => None,
    };
    let distinct = hash_get(helper, "distinct").is_some();
    let quotes = hash_get(helper, "quotes").is_some();
    let single_quote = hash_get(helper, "single_quote").is_some();
    let render_all = hash_get(helper, "render_all").is_some();
    Options::resolve(separator, distinct, quotes, single_quote, render_all, is_block(helper))
}

/// Classifies the positional parameters of a call.
pub fn classify_params<'a>(helper: &'a Helper<'_>) -> (arguments: Vec<Argument<'a>>)
    ensures
        models_of(arguments@) == helper_arguments(*helper),
{
    let all = params(helper);
    let mut arguments: Vec<Argument<'a>> = Vec::new();
    let mut i: usize = 0;
    while i < all.len()
        invariant
            i <= all.len(),
            arguments@.len() == i,
            all@ == helper_params(*helper),
            forall|j: int|
                0 <= j < i ==> (#[trigger] arguments@[j])@ == helper_arguments(*helper)[j],
        decreases all.len() - i,
    {
        let param = &all[i];
        arguments.push(Argument::classify(value(param), context_path(param)));
        i += 1;
    }
    assert(models_of(arguments@) =~= helper_arguments(*helper));
    arguments
}

} // verus!
