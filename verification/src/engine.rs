//! Getting the text of every element, with the template engine rendering
//! the block where the plan asks for it; and the concatenation as a whole.

use crate::argument::{
    lemma_plan_without_sub_template, models_of, plan, planned, step_models, Argument, RenderScope,
    ScopeModel, Step, StepModel,
};
use crate::buffer::{assemble, output, texts_of};
use crate::options::Options;
use handlebars::{
    BlockContext, Context, Handlebars, RenderContext, RenderError, Renderable, Template,
};
use serde_json::Value as Json;
use vstd::prelude::*;

verus! {

/// `handlebars::Template`, a compiled template. It is handed to the engine as
/// it is.
#[verifier::external_type_specification]
#[verifier::external_body]
pub struct ExTemplate(handlebars::Template);

/// `handlebars::Handlebars`, the registry of templates and helpers. It is
/// handed to the engine as it is.
#[verifier::external_type_specification]
#[verifier::external_body]
pub struct ExRegistry<'reg>(handlebars::Handlebars<'reg>);

/// `handlebars::Context`, the data that the whole template is rendered with.
/// It is handed to the engine as it is.
#[verifier::external_type_specification]
#[verifier::external_body]
pub struct ExContext(handlebars::Context);

/// `handlebars::RenderContext`, the state of one rendering, which holds the
/// stack of scopes. It is handed to the engine as it is.
#[verifier::external_type_specification]
#[verifier::external_body]
pub struct ExRenderContext<'reg, 'rc>(handlebars::RenderContext<'reg, 'rc>);

/// `handlebars::RenderError`, what the engine reports when it cannot render.
#[verifier::external_type_specification]
#[verifier::external_body]
pub struct ExRenderError(handlebars::RenderError);

/// Why a concatenation gave no text.
#[derive(Debug)]
pub enum EngineError {
    /// The engine failed on the sub-template.
    Render(RenderError),
}

impl EngineError {
    /// The engine's own error.
    pub fn into_render_error(self) -> (error: RenderError)
        ensures
            self == EngineError::Render(error),
    {
        match self {
            EngineError::Render(error) => error,
        }
    }
}

/// `handlebars::BlockContext`, one scope of a rendering. Of what it holds,
/// only its base path and its base value are spoken of here.
#[verifier::external_type_specification]
#[verifier::external_body]
pub struct ExBlockContext<'rc>(handlebars::BlockContext<'rc>);

/// The base path of a scope: the segments of the path from which the lookups
/// of a template start.
pub uninterp spec fn block_path(block: BlockContext) -> Seq<Seq<char>>;

/// The base value of a scope, if it has one: the value at which the lookups
/// of a template start in place of the data at the base path.
pub uninterp spec fn block_value(block: BlockContext) -> Option<Json>;

/// Calls `BlockContext::new`. Claimed: the new scope has an empty base path
/// and no base value.
#[verifier::external_body]
fn new_block<'rc>() -> (block: BlockContext<'rc>)
    ensures
        block_path(block) == Seq::<Seq<char>>::empty(),
        block_value(block) is None,
{
    BlockContext::new()
}

/// Assigns a copy of `path` through `BlockContext::base_path_mut`. Claimed:
/// the base path is then `path`, and the base value is as before.
#[verifier::external_body]
fn set_base_path(block: &mut BlockContext<'_>, path: &Vec<String>)
    ensures
        block_path(*final(block)) == texts_of(path@),
        block_value(*final(block)) == block_value(*old(block)),
{
    *block.base_path_mut() = path.clone();
}

/// Calls `BlockContext::set_base_value` with a copy of `value`. Claimed: the
/// base value is then `value`, and the base path is as before.
#[verifier::external_body]
fn set_base_value(block: &mut BlockContext<'_>, value: &Json)
    ensures
        block_value(*final(block)) == Some(*value),
        block_path(*final(block)) == block_path(*old(block)),
{
    block.set_base_value(value.clone());
}

/// Calls `RenderContext::push_block`. Nothing is claimed of the state that
/// this leaves.
#[verifier::external_body]
fn push_block<'reg: 'rc, 'rc>(rc: &mut RenderContext<'reg, 'rc>, block: BlockContext<'rc>) {
    rc.push_block(block);
}

/// Calls `RenderContext::pop_block`. Nothing is claimed of the state that
/// this leaves.
#[verifier::external_body]
fn pop_block<'reg: 'rc, 'rc>(rc: &mut RenderContext<'reg, 'rc>) {
    rc.pop_block();
}

/// Calls `Renderable::renders` on a template. Nothing is claimed of what it
/// returns: that depends on the template, on the helpers that the registry
/// holds and on the state of the rendering.
#[verifier::external_body]
fn renders<'reg: 'rc, 'rc>(
    fragment: &'rc Template,
    registry: &'reg Handlebars<'reg>,
    context: &'rc Context,
    rc: &mut RenderContext<'reg, 'rc>,
) -> (rendered: Result<String, RenderError>) {
    fragment.renders(registry, context, rc)
}

/// Whether `block` is the scope that `scope` asks for: with the path as its
/// base path and no base value, or with the value as its base value and an
/// empty base path.
pub open spec fn block_is(block: BlockContext, scope: ScopeModel) -> bool {
    match scope {
        ScopeModel::Path(segments) => block_path(block) == segments && block_value(block) is None,
        ScopeModel::Value(value) => block_path(block) == Seq::<Seq<char>>::empty() && block_value(
            block,
        ) == Some(value),
    }
}

/// Makes the scope of the engine for `scope`.
pub fn create_block<'rc>(scope: &RenderScope<'_>) -> (block: BlockContext<'rc>)
    ensures
        block_is(block, scope@),
{
    let mut block = new_block();
    match *scope {
        RenderScope::Path(path) => set_base_path(&mut block, path),
        RenderScope::Value(value) => set_base_value(&mut block, value),
    }
    block
}

/// Whether `text` can be the text of an element whose step is `step`: the
/// known text for a literal step; for a sub-rendered one anything that the
/// engine gives, and the empty text where there is no sub-template to give
/// one.
pub open spec fn allows(step: StepModel, text: Seq<char>, has_fragment: bool) -> bool {
    match step {
        StepModel::Literal(known) => text == known,
        StepModel::Render(_) => has_fragment || text.len() == 0,
    }
}

/// Whether `texts` can be the element texts for the plan `steps`.
pub open spec fn fits(steps: Seq<StepModel>, texts: Seq<Seq<char>>, has_fragment: bool) -> bool {
    &&& texts.len() == steps.len()
    &&& forall|i: int| 0 <= i < steps.len() ==> #[trigger] allows(steps[i], texts[i], has_fragment)
}

/// Whether the engine has no say in the element texts for the plan `steps`:
/// there is no sub-template, or no step is sub-rendered.
pub open spec fn settled(steps: Seq<StepModel>, has_fragment: bool) -> bool {
    has_fragment ==> forall|i: int| 0 <= i < steps.len() ==> #[trigger] steps[i] is Literal
}

/// The element texts for a plan in which the engine has no say.
pub open spec fn settled_texts(steps: Seq<StepModel>) -> Seq<Seq<char>> {
    Seq::new(
        steps.len(),
        |i: int|
            match steps[i] {
                StepModel::Literal(known) => known,
                StepModel::Render(_) => Seq::empty(),
            },
    )
}

/// Where the engine has no say, exactly one sequence of texts fits the plan.
pub proof fn lemma_settled_fits(steps: Seq<StepModel>, texts: Seq<Seq<char>>, has_fragment: bool)
    requires
        settled(steps, has_fragment),
    ensures
        fits(steps, texts, has_fragment) <==> texts == settled_texts(steps),
{
    let expected = settled_texts(steps);
    if fits(steps, texts, has_fragment) {
        assert forall|i: int| 0 <= i < steps.len() implies texts[i] == expected[i] by {
            assert(allows(steps[i], texts[i], has_fragment));
            assert(has_fragment ==> steps[i] is Literal);
        }
        assert(texts =~= expected);
    }
    if texts == expected {
        assert forall|i: int| 0 <= i < steps.len() implies #[trigger] allows(
            steps[i],
            texts[i],
            has_fragment,
        ) by {
            assert(has_fragment ==> steps[i] is Literal);
        }
    }
}

/// Evaluates the sub-template in `scope` and gives the text that it
/// produced: the scope is pushed, the template rendered, the scope popped. A
/// failure of the engine is handed on at once. Without a sub-template the
/// text is empty and the engine is left alone.
pub fn render_scoped<'reg: 'rc, 'rc>(
    fragment: Option<&'rc Template>,
    scope: &RenderScope<'_>,
    registry: &'reg Handlebars<'reg>,
    context: &'rc Context,
    rc: &mut RenderContext<'reg, 'rc>,
) -> (rendered: Result<String, EngineError>)
    ensures
        fragment is None ==> (rendered matches Ok(text) && text@.len() == 0),
{
    match fragment {
        None => Ok(String::new()),
        Some(template) => {
            push_block(rc, create_block(scope));
            match renders(template, registry, context, rc) {
                Ok(text) => {
                    pop_block(rc);
                    Ok(text)
                },
                Err(error) => Err(EngineError::Render(error)),
            }
        },
    }
}

/// Gets the text of every element in the order of the plan: a literal step
/// gives its text, a sub-rendered one what the engine gives in its scope.
/// The first failure of the engine ends the work, and no text is handed out.
pub fn render_steps<'reg: 'rc, 'rc>(
    steps: &Vec<Step<'_>>,
    fragment: Option<&'rc Template>,
    registry: &'reg Handlebars<'reg>,
    context: &'rc Context,
    rc: &mut RenderContext<'reg, 'rc>,
) -> (rendered: Result<Vec<String>, EngineError>)
    ensures
        settled(step_models(steps@), fragment is Some) ==> rendered is Ok,
        rendered matches Ok(texts) ==> fits(
            step_models(steps@),
            texts_of(texts@),
            fragment is Some,
        ),
{
    let mut texts: Vec<String> = Vec::new();
    let mut i: usize = 0;
    while i < steps.len()
        invariant
            i <= steps.len(),
            texts@.len() == i,
            forall|j: int|
                0 <= j < i ==> #[trigger] allows(
                    step_models(steps@)[j],
                    texts_of(texts@)[j],
                    fragment is Some,
                ),
        decreases steps.len() - i,
    {
        let ghost before = texts@;
        let text = match &steps[i] {
            Step::Literal(known) => known.clone(),
            Step::Render(scope) => {
                match render_scoped(fragment, scope, registry, context, rc) {
                    Ok(text) => text,
                    Err(error) => {
                        proof {
                            if settled(step_models(steps@), fragment is Some) {
                                assert(step_models(steps@)[i as int] is Literal);
                            }
                        }
                        return Err(error);
                    },
                }
            },
        };
        texts.push(text);
        proof {
            assert forall|j: int| 0 <= j < i + 1 implies #[trigger] allows(
                step_models(steps@)[j],
                texts_of(texts@)[j],
                fragment is Some,
            ) by {
                if j < i {
                    assert(allows(step_models(steps@)[j], texts_of(before)[j], fragment is Some));
                    assert(texts_of(texts@)[j] == texts_of(before)[j]);
                }
            }
        }
        i += 1;
    }
    Ok(texts)
}

/// Joins the texts of all elements of `arguments`, as `options` say. The
/// text of an element is its own, or what the sub-template `fragment` gives
/// for it; if the engine fails on the sub-template, so does the
/// concatenation, and nothing of what was produced is kept.
pub fn concat<'reg: 'rc, 'rc>(
    arguments: &Vec<Argument<'_>>,
    options: &Options,
    fragment: Option<&'rc Template>,
    registry: &'reg Handlebars<'reg>,
    context: &'rc Context,
    rc: &mut RenderContext<'reg, 'rc>,
) -> (result: Result<String, EngineError>)
    ensures
        !options.has_sub_template || fragment is None ==> result is Ok,
        settled(planned(models_of(arguments@), options@), fragment is Some) ==> (result matches Ok(
            text,
        ) && text@ == output(
            settled_texts(planned(models_of(arguments@), options@)),
            options@,
        )),
        result matches Ok(text) ==> exists|texts: Seq<Seq<char>>|
            #[trigger] fits(planned(models_of(arguments@), options@), texts, fragment is Some)
                && text@ == output(texts, options@),
{
    let steps = plan(arguments, options);
    proof {
        if !options.has_sub_template {
            lemma_plan_without_sub_template(models_of(arguments@), options@);
        }
    }
    match render_steps(&steps, fragment, registry, context, rc) {
        Ok(texts) => {
            proof {
                if settled(step_models(steps@), fragment is Some) {
                    lemma_settled_fits(step_models(steps@), texts_of(texts@), fragment is Some);
                }
            }
            Ok(assemble(&texts, options))
        },
        Err(error) => Err(error),
    }
}

} // verus!
