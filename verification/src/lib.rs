//! Joins the arguments of one helper call into a single text, for the
//! handlebars template engine.
//!
//! [`options`] holds the settings of a call. [`argument`] classifies every
//! argument and plans, element by element, where its text comes from.
//! [`engine`] gets the texts, asking the template engine for those that the
//! block of the call has to render. [`buffer`] drops the empty ones, quotes
//! and filters the rest, and joins what is left. [`helper`] reads a call as
//! the engine hands it over, and [`json`] reads JSON values. [`laws`] states
//! what holds of the output in general.

pub mod argument;
pub mod buffer;
pub mod engine;
pub mod helper;
pub mod json;
pub mod laws;
pub mod options;
pub mod quoting;

use crate::argument::planned;
use crate::buffer::output;
use crate::engine::{concat, fits, settled, settled_texts, EngineError};
use crate::helper::{
    classify_params, helper_arguments, helper_has_template, helper_options, resolve_options,
    template,
};
use handlebars::{Context, Handlebars, Helper, RenderContext};
use vstd::prelude::*;

verus! {

/// A helper that joins its arguments into one text.
///
/// Every argument contributes elements: a string, number or boolean one, an
/// array one for each item, an object one for each key; null contributes
/// none. The text of an element is its own printed form (for an object's
/// entry, its key) unless the call is a block: then a value of an object is
/// rendered with the block's template, and with `render_all` so is every
/// other element. Empty texts are left out, `quotes` puts each text between
/// quotation marks (`single_quote` makes them single), `distinct` leaves out
/// a text that came before, and `separator` (a comma if not given) stands
/// between the texts that remain.
#[derive(Clone, Copy)]
pub struct HandlebarsConcat;

impl HandlebarsConcat {
    /// The text for one call of the helper. It is for the caller to write it
    /// to the output.
    pub fn call<'reg: 'rc, 'rc>(
        &self,
        h: &Helper<'rc>,
        r: &'reg Handlebars<'reg>,
        ctx: &'rc Context,
        rc: &mut RenderContext<'reg, 'rc>,
    ) -> (result: Result<String, EngineError>)
        ensures
            !helper_options(*h).has_sub_template || !helper_has_template(*h) ==> result is Ok,
            settled(planned(helper_arguments(*h), helper_options(*h)), helper_has_template(*h)) ==> (
            result matches Ok(text) && text@ == output(
                settled_texts(planned(helper_arguments(*h), helper_options(*h))),
                helper_options(*h),
            )),
            result matches Ok(text) ==> exists|texts: Seq<Seq<char>>|
                #[trigger] fits(
                    planned(helper_arguments(*h), helper_options(*h)),
                    texts,
                    helper_has_template(*h),
                ) && text@ == output(texts, helper_options(*h)),
    {
        let options = resolve_options(h);
        let arguments = classify_params(h);
        concat(&arguments, &options, template(h), r, ctx, rc)
    }
}

} // verus!
