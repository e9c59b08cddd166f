//! The arguments of a call, classified, and the plan that says for each of
//! their elements where its text comes from.

use crate::buffer::texts_of;
use crate::json::{
    entry_keys, entry_values, json_shape, json_text, map_entries, shape_of, stringify, JsonShape,
    Shape,
};
use crate::options::{Options, OptionsModel};
use serde_json::Map as JsonMap;
use serde_json::Value as Json;
use vstd::prelude::*;

verus! {

/// What one argument of a call is, as far as concatenation goes.
pub enum ArgumentModel {
    /// Nothing: it contributes no element.
    Empty,
    /// One element: a value with the path it was looked up under, if any.
    Scalar { value: Json, path: Option<Seq<Seq<char>>> },
    /// One element for each item, in order.
    Sequence(Seq<Json>),
    /// One element for each key with its value, in the mapping's order.
    Mapping(Seq<(Seq<char>, Json)>),
}

/// One argument of a call, classified.
#[derive(Clone, Copy, Debug)]
pub enum Argument<'a> {
    Empty,
    Scalar { value: &'a Json, path: Option<&'a Vec<String>> },
    Sequence(&'a Vec<Json>),
    Mapping(&'a JsonMap<String, Json>),
}

/// The segments of a lookup path, if there is one.
pub open spec fn path_model(path: Option<&Vec<String>>) -> Option<Seq<Seq<char>>> {
    match path {
        Some(segments) => Some(texts_of(segments@)),
        None => None,
    }
}

impl<'a> View for Argument<'a> {
    type V = ArgumentModel;

    open spec fn view(&self) -> ArgumentModel {
        match *self {
            Argument::Empty => ArgumentModel::Empty,
            Argument::Scalar { value, path } => ArgumentModel::Scalar {
                value: *value,
                path: path_model(path),
            },
            Argument::Sequence(items) => ArgumentModel::Sequence(items@),
            Argument::Mapping(entries) => ArgumentModel::Mapping(map_entries(*entries)),
        }
    }
}

/// The models of `arguments`, in order.
pub open spec fn models_of(arguments: Seq<Argument>) -> Seq<ArgumentModel> {
    Seq::new(arguments.len(), |i: int| arguments[i]@)
}

/// The class of a value of shape `shape`: null is empty, a boolean, a number
/// or a string is a scalar, an array is a sequence, an object is a mapping.
pub open spec fn classified(
    shape: Shape,
    value: Json,
    path: Option<Seq<Seq<char>>>,
) -> ArgumentModel {
    match shape {
        Shape::Null => ArgumentModel::Empty,
        Shape::Bool | Shape::Number | Shape::String => ArgumentModel::Scalar { value, path },
        Shape::Array(items) => ArgumentModel::Sequence(items),
        Shape::Object(entries) => ArgumentModel::Mapping(entries),
    }
}

/// Where a sub-template is evaluated, as a value.
pub enum ScopeModel {
    /// At a lookup path of the data that the whole template is rendered with.
    Path(Seq<Seq<char>>),
    /// At a value of its own, with no path.
    Value(Json),
}

/// Where a sub-template is evaluated for one element.
#[derive(Clone, Copy, Debug, PartialEq)]
pub enum RenderScope<'a> {
    Path(&'a Vec<String>),
    Value(&'a Json),
}

impl<'a> View for RenderScope<'a> {
    type V = ScopeModel;

    open spec fn view(&self) -> ScopeModel {
        match *self {
            RenderScope::Path(segments) => ScopeModel::Path(texts_of(segments@)),
            RenderScope::Value(value) => ScopeModel::Value(*value),
        }
    }
}

/// The scope of a scalar: its lookup path where it has one, else its value.
pub open spec fn scalar_scope(value: Json, path: Option<Seq<Seq<char>>>) -> ScopeModel {
    match path {
        Some(segments) => ScopeModel::Path(segments),
        None => ScopeModel::Value(value),
    }
}

/// How one element gets its text, as a value.
pub enum StepModel {
    /// The text is known.
    Literal(Seq<char>),
    /// The text is what the sub-template gives in this scope.
    Render(ScopeModel),
}

/// How one element gets its text.
#[derive(Clone, Debug, PartialEq)]
pub enum Step<'a> {
    Literal(String),
    Render(RenderScope<'a>),
}

impl<'a> View for Step<'a> {
    type V = StepModel;

    open spec fn view(&self) -> StepModel {
        match *self {
            Step::Literal(text) => StepModel::Literal(text@),
            Step::Render(scope) => StepModel::Render(scope@),
        }
    }
}

/// The models of `steps`, in order.
pub open spec fn step_models(steps: Seq<Step>) -> Seq<StepModel> {
    Seq::new(steps.len(), |i: int| steps[i]@)
}

/// Putting a step to the end of a plan puts its model to the end of the
/// plan's models.
pub proof fn lemma_step_models_push(steps: Seq<Step>, step: Step)
    ensures
        step_models(steps.push(step)) == step_models(steps).push(step@),
{
    assert(step_models(steps.push(step)) =~= step_models(steps).push(step@));
}

/// The step for a value that is an element by itself: sub-rendered in `scope`
/// if `sub_render` holds, its own text otherwise.
pub open spec fn value_step(value: Json, scope: ScopeModel, sub_render: bool) -> StepModel {
    if sub_render {
        StepModel::Render(scope)
    } else {
        StepModel::Literal(json_text(value))
    }
}

/// The step for one entry of a mapping: its value sub-rendered at the value
/// if `sub_render` holds, the text of its key otherwise.
pub open spec fn entry_step(entry: (Seq<char>, Json), sub_render: bool) -> StepModel {
    if sub_render {
        StepModel::Render(ScopeModel::Value(entry.1))
    } else {
        StepModel::Literal(entry.0)
    }
}

/// The steps of one argument, one for each of its elements.
pub open spec fn planned_for(argument: ArgumentModel, options: OptionsModel) -> Seq<StepModel> {
    match argument {
        ArgumentModel::Empty => Seq::empty(),
        ArgumentModel::Scalar { value, path } => seq![
            value_step(value, scalar_scope(value, path), options.sub_renders_elements()),
        ],
        ArgumentModel::Sequence(items) => Seq::new(
            items.len(),
            |i: int|
                value_step(items[i], ScopeModel::Value(items[i]), options.sub_renders_elements()),
        ),
        ArgumentModel::Mapping(entries) => Seq::new(
            entries.len(),
            |i: int| entry_step(entries[i], options.sub_renders_values()),
        ),
    }
}

/// The steps of all arguments: those of the first argument, then those of the
/// second, and so on.
pub open spec fn planned(arguments: Seq<ArgumentModel>, options: OptionsModel) -> Seq<StepModel>
    decreases arguments.len(),
{
    if arguments.len() == 0 {
        Seq::empty()
    } else {
        planned(arguments.drop_last(), options) + planned_for(arguments.last(), options)
    }
}

/// Without a sub-template every step of a plan is literal: no element is
/// sub-rendered.
pub proof fn lemma_plan_without_sub_template(arguments: Seq<ArgumentModel>, options: OptionsModel)
    requires
        !options.has_sub_template,
    ensures
        forall|i: int|
            0 <= i < planned(arguments, options).len() ==> #[trigger] planned(
                arguments,
                options,
            )[i] is Literal,
    decreases arguments.len(),
{
    if arguments.len() > 0 {
        lemma_plan_without_sub_template(arguments.drop_last(), options);
    }
}

impl<'a> RenderScope<'a> {
    /// The scope in which the sub-template is evaluated for a scalar: at the
    /// path under which the scalar was looked up, so that what the template
    /// looks up from there is still found, and at the value itself where
    /// there is no such path.
    pub fn for_scalar(value: &'a Json, path: Option<&'a Vec<String>>) -> (scope: RenderScope<'a>)
        ensures
            scope@ == scalar_scope(*value, path_model(path)),
    {
        match path {
            Some(segments) => RenderScope::Path(segments),
            None => RenderScope::Value(value),
        }
    }
}

impl<'a> Step<'a> {
    /// The step for a value that is an element by itself.
    pub fn for_value(value: &'a Json, scope: RenderScope<'a>, sub_render: bool) -> (step: Step<'a>)
        ensures
            step@ == value_step(*value, scope@, sub_render),
    {
        if sub_render {
            Step::Render(scope)
        } else {
            Step::Literal(stringify(value))
        }
    }
}

/// Puts one step for each item of a sequence at the end of `steps`.
fn plan_items<'a>(items: &'a Vec<Json>, options: &Options, steps: &mut Vec<Step<'a>>)
    ensures
        step_models(final(steps)@) == step_models(old(steps)@) + planned_for(
            ArgumentModel::Sequence(items@),
            options@,
        ),
{
    let ghost before = step_models(steps@);
    let ghost planned = planned_for(ArgumentModel::Sequence(items@), options@);
    let sub_render = options.renders_elements();
    let mut i: usize = 0;
    assert(step_models(steps@) =~= before + planned.take(0));
    while i < items.len()
        invariant
            i <= items.len(),
            sub_render == options@.sub_renders_elements(),
            planned == planned_for(ArgumentModel::Sequence(items@), options@),
            step_models(steps@) == before + planned.take(i as int),
        decreases items.len() - i,
    {
        let item = &items[i];
        let step = Step::for_value(item, RenderScope::Value(item), sub_render);
        proof {
            lemma_step_models_push(steps@, step);
            assert(planned.take(i + 1) =~= planned.take(i as int).push(step@));
        }
        steps.push(step);
        assert(step_models(steps@) =~= before + planned.take(i + 1));
        i += 1;
    }
    assert(planned.take(items.len() as int) =~= planned);
}

/// Puts one sub-rendered step for each value of a mapping at the end of
/// `steps`.
fn plan_values<'a>(entries: &'a JsonMap<String, Json>, options: &Options, steps: &mut Vec<Step<'a>>)
    requires
        options@.sub_renders_values(),
    ensures
        step_models(final(steps)@) == step_models(old(steps)@) + planned_for(
            ArgumentModel::Mapping(map_entries(*entries)),
            options@,
        ),
{
    let ghost before = step_models(steps@);
    let ghost planned = planned_for(ArgumentModel::Mapping(map_entries(*entries)), options@);
    let values = entry_values(entries);
    let mut i: usize = 0;
    assert(step_models(steps@) =~= before + planned.take(0));
    while i < values.len()
        invariant
            i <= values.len(),
            options@.sub_renders_values(),
            planned == planned_for(ArgumentModel::Mapping(map_entries(*entries)), options@),
            values@.len() == map_entries(*entries).len(),
            forall|j: int|
                0 <= j < values@.len() ==> *(#[trigger] values@[j]) == map_entries(*entries)[j].1,
            step_models(steps@) == before + planned.take(i as int),
        decreases values.len() - i,
    {
        let step = Step::Render(RenderScope::Value(values[i]));
        proof {
            lemma_step_models_push(steps@, step);
            assert(planned.take(i + 1) =~= planned.take(i as int).push(step@));
        }
        steps.push(step);
        assert(step_models(steps@) =~= before + planned.take(i + 1));
        i += 1;
    }
    assert(planned.take(values.len() as int) =~= planned);
}

/// Puts one literal step for each key of a mapping at the end of `steps`.
fn plan_keys<'a>(entries: &'a JsonMap<String, Json>, options: &Options, steps: &mut Vec<Step<'a>>)
    requires
        !options@.sub_renders_values(),
    ensures
        step_models(final(steps)@) == step_models(old(steps)@) + planned_for(
            ArgumentModel::Mapping(map_entries(*entries)),
            options@,
        ),
{
    let ghost before = step_models(steps@);
    let ghost planned = planned_for(ArgumentModel::Mapping(map_entries(*entries)), options@);
    let keys = entry_keys(entries);
    let mut i: usize = 0;
    assert(step_models(steps@) =~= before + planned.take(0));
    while i < keys.len()
        invariant
            i <= keys.len(),
            !options@.sub_renders_values(),
            planned == planned_for(ArgumentModel::Mapping(map_entries(*entries)), options@),
            keys@.len() == map_entries(*entries).len(),
            forall|j: int|
                0 <= j < keys@.len() ==> (#[trigger] keys@[j])@ == map_entries(*entries)[j].0,
            step_models(steps@) == before + planned.take(i as int),
        decreases keys.len() - i,
    {
        let step = Step::Literal(keys[i].clone());
        proof {
            lemma_step_models_push(steps@, step);
            assert(planned.take(i + 1) =~= planned.take(i as int).push(step@));
        }
        steps.push(step);
        assert(step_models(steps@) =~= before + planned.take(i + 1));
        i += 1;
    }
    assert(planned.take(keys.len() as int) =~= planned);
}

impl<'a> Argument<'a> {
    /// Classifies a value that was looked up under `path`, or that has no
    /// path.
    pub fn classify(value: &'a Json, path: Option<&'a Vec<String>>) -> (argument: Argument<'a>)
        ensures
            argument@ == classified(json_shape(*value), *value, path_model(path)),
    {
        match shape_of(value) {
            JsonShape::Null => Argument::Empty,
            JsonShape::Bool | JsonShape::Number | JsonShape::String => Argument::Scalar {
                value,
                path,
            },
            JsonShape::Array(items) => Argument::Sequence(items),
            JsonShape::Object(entries) => Argument::Mapping(entries),
        }
    }

    /// Puts the steps of this argument at the end of `steps`: none for an
    /// empty argument, one for a scalar, one for each item of a sequence and
    /// one for each entry of a mapping. A scalar or an item is sub-rendered
    /// only where the options ask for all elements; an entry gives its value
    /// to the sub-template whenever there is one, and its key as text
    /// otherwise.
    pub fn plan_into(&self, options: &Options, steps: &mut Vec<Step<'a>>)
        ensures
            step_models(final(steps)@) == step_models(old(steps)@) + planned_for(self@, options@),
    {
        match *self {
            Argument::Empty => {
                assert(step_models(steps@) =~= step_models(old(steps)@) + planned_for(
                    self@,
                    options@,
                ));
            },
            Argument::Scalar { value, path } => {
                let scope = RenderScope::for_scalar(value, path);
                let step = Step::for_value(value, scope, options.renders_elements());
                proof {
                    lemma_step_models_push(steps@, step);
                }
                steps.push(step);
                assert(step_models(steps@) =~= step_models(old(steps)@) + planned_for(
                    self@,
                    options@,
                ));
            },
            Argument::Sequence(items) => plan_items(items, options, steps),
            Argument::Mapping(entries) => {
                if options.renders_values() {
                    plan_values(entries, options, steps)
                } else {
                    plan_keys(entries, options, steps)
                }
            },
        }
    }
}

/// Decides, for every element of every argument in order, how its text is
/// got: from the element itself or from the sub-template, and in which scope.
pub fn plan<'a>(arguments: &Vec<Argument<'a>>, options: &Options) -> (steps: Vec<Step<'a>>)
    ensures
        step_models(steps@) == planned(models_of(arguments@), options@),
{
    let mut steps: Vec<Step<'a>> = Vec::new();
    let mut i: usize = 0;
    assert(step_models(steps@) =~= planned(models_of(arguments@).take(0), options@));
    while i < arguments.len()
        invariant
            i <= arguments.len(),
            step_models(steps@) == planned(models_of(arguments@).take(i as int), options@),
        decreases arguments.len() - i,
    {
        arguments[i].plan_into(options, &mut steps);
        proof {
            let next = models_of(arguments@).take(i + 1);
            assert(next.drop_last() =~= models_of(arguments@).take(i as int));
            assert(next.last() == arguments@[i as int]@);
        }
        i += 1;
    }
    assert(models_of(arguments@).take(arguments.len() as int) =~= models_of(arguments@));
    steps
}

} // verus!
