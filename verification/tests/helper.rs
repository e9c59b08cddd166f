use handlebars::{
    Context, Handlebars, Helper, HelperDef, HelperResult, Output, RenderContext,
};
use handlebars_concat::argument::Argument;
use handlebars_concat::engine::EngineError;
use handlebars_concat::helper::{classify_params, resolve_options};
use handlebars_concat::HandlebarsConcat;
use serde_json::Value;

/// The helper as the engine takes it: the library gives the text, and this
/// writes it out.
struct Concat;

impl HelperDef for Concat {
    fn call<'reg: 'rc, 'rc>(
        &self,
        h: &Helper<'rc>,
        r: &'reg Handlebars<'reg>,
        ctx: &'rc Context,
        rc: &mut RenderContext<'reg, 'rc>,
        out: &mut dyn Output,
    ) -> HelperResult {
        let text = HandlebarsConcat
            .call(h, r, ctx, rc)
            .map_err(EngineError::into_render_error)?;
        out.write(&text)?;
        Ok(())
    }
}

/// Writes out how the library reads a call: its settings, then the class of
/// each of its arguments.
struct Reading;

impl HelperDef for Reading {
    fn call<'reg: 'rc, 'rc>(
        &self,
        h: &Helper<'rc>,
        _: &'reg Handlebars<'reg>,
        _: &'rc Context,
        _: &mut RenderContext<'reg, 'rc>,
        out: &mut dyn Output,
    ) -> HelperResult {
        let options = resolve_options(h);
        out.write(&format!(
            "[{}] distinct={} quotes={} single_quote={} render_all={} has_sub_template={}",
            options.separator,
            options.distinct,
            options.quotes,
            options.single_quote,
            options.render_all,
            options.has_sub_template
        ))?;
        for argument in classify_params(h) {
            let class = match argument {
                Argument::Empty => "empty".to_string(),
                Argument::Scalar { value, path } => format!("scalar({},{:?})", value, path),
                Argument::Sequence(items) => format!("sequence({})", items.len()),
                Argument::Mapping(entries) => format!("mapping({})", entries.len()),
            };
            out.write(&format!(" {}", class))?;
        }
        Ok(())
    }
}

fn engine() -> Handlebars<'static> {
    let mut h = Handlebars::new();
    h.register_helper("concat", Box::new(Concat));
    h.register_helper("reading", Box::new(Reading));
    h
}

fn text(s: &str) -> Value {
    Value::String(s.to_string())
}

fn array(items: Vec<Value>) -> Value {
    Value::Array(items)
}

fn object(entries: Vec<(&str, Value)>) -> Value {
    let mut map = serde_json::Map::new();
    for (key, value) in entries {
        map.insert(key.to_string(), value);
    }
    Value::Object(map)
}

fn labelled(label: &str) -> Value {
    object(vec![("label", text(label))])
}

fn labels() -> Value {
    object(vec![
        ("key0", labelled("Two")),
        ("key1", labelled("Three")),
        ("key2", labelled("Four")),
    ])
}

fn sample() -> Value {
    object(vec![
        ("s", text("One")),
        ("arr", array(vec![text("One"), text("Two")])),
        ("obj", labels()),
    ])
}

#[test]
fn it_works() {
    let h = engine();

    assert_eq!(
        h.render_template(r#"{{concat 1 2}}"#, &String::new())
            .expect("Render error"),
        "1,2",
        "Failed to concat numeric literals"
    );
    assert_eq!(
        h.render_template(r#"{{concat "One" "Two"}}"#, &String::new())
            .expect("Render error"),
        "One,Two",
        "Failed to concat literals"
    );
    assert_eq!(
        h.render_template(r#"{{concat "One" "Two" separator=", "}}"#, &String::new())
            .expect("Render error"),
        "One, Two",
        "Failed to concat literals with separator"
    );
    assert_eq!(
        h.render_template(
            r#"{{concat "One" "Two" separator=", " quotes=true}}"#,
            &String::new()
        )
        .expect("Render error"),
        r#""One", "Two""#,
        "Failed to concat literals with separator and quotes"
    );
    assert_eq!(
        h.render_template(
            r#"{{concat "One" "Two" separator=", " quotes=true single_quote=true}}"#,
            &String::new()
        )
        .expect("Render error"),
        r#"'One', 'Two'"#,
        "Failed to concat literals with separator and single quotation marks"
    );
    assert_eq!(
        h.render_template(
            r#"{{concat s arr obj separator=", " quotes=true}}"#,
            &object(vec![("arr", array(vec![text("One"), text("Two"), text("Three")]))])
        )
        .expect("Render error"),
        r#""One", "Two", "Three""#,
        "Failed to concat array with quotes"
    );
    assert_eq!(
        h.render_template(
            r#"{{concat s arr obj separator=", " distinct=true}}"#,
            &object(vec![
                ("s", text("One")),
                ("arr", array(vec![text("One"), text("Two")])),
                ("obj", object(vec![("Three", Value::from(3))])),
            ])
        )
        .expect("Render error"),
        "One, Two, Three",
        "Failed to concat literal, array and object"
    );
    assert_eq!(
        h.render_template(
            r#"{{#concat s arr obj separator=", " distinct=true}}{{label}}{{/concat}}"#,
            &sample()
        )
        .expect("Render error"),
        "One, Two, Three, Four",
        "Failed to concat literal, array and object using block template"
    );
    assert_eq!(
        h.render_template(
            r#"{{#concat s arr obj separator=", " distinct=true quotes=true}}{{label}}{{/concat}}"#,
            &sample()
        )
        .expect("Render error"),
        r#""One", "Two", "Three", "Four""#,
        "Failed to concat literal, array and object using block template"
    );
    assert_eq!(
        h.render_template(
            r#"{{concat obj separator=", " quotes=true}}"#,
            &object(vec![("obj", labels())])
        )
        .expect("Render error"),
        r#""key0", "key1", "key2""#,
        "Failed to concat object keys with quotation marks and no distinction"
    );
    assert_eq!(
        h.render_template(
            r#"{{#concat s arr obj separator=", " distinct=true render_all=true}}<{{#if label}}{{label}}{{else}}{{this}}{{/if}}/>{{/concat}}"#,
            &sample()
        )
        .expect("Render error"),
        r#"<One/>, <Two/>, <Three/>, <Four/>"#,
        "Failed to concat literal, array and object using block template"
    );
    assert_eq!(
        h.render_template(
            r#"{{#concat s arr obj separator=", " distinct=true render_all=true quotes=true}}[{{#if label}}{{label}}{{else}}{{this}}{{/if}}]{{/concat}}"#,
            &sample()
        )
        .expect("Render error"),
        r#""[One]", "[Two]", "[Three]", "[Four]""#,
        "Failed to concat literal, array and object using block template"
    );
    assert_eq!(
        h.render_template(
            r#"{{#concat s arr obj separator=", " distinct=true render_all=true quotes=true}}[{{#if label}}{{label}}{{else}}{{@root/zero}}{{/if}}]{{/concat}}"#,
            &object(vec![
                ("zero", text("Zero")),
                ("s", text("One")),
                ("arr", array(vec![text("One"), text("Two")])),
                ("obj", labels()),
            ])
        )
        .expect("Render error"),
        r#""[Zero]", "[Two]", "[Three]", "[Four]""#,
        "Failed to concat literal, array and object using block template"
    );
}

#[test]
fn helper_joins_documented_examples() {
    let h = engine();
    let data = object(vec![("item1", text("Value 1")), ("item2", text("Value 2"))]);
    assert_eq!(
        h.render_template(r#"{{concat item1 item2}}"#, &data).unwrap(),
        "Value 1,Value 2"
    );
    assert_eq!(
        h.render_template(r#"{{concat this separator=", "}}"#, &data).unwrap(),
        "item1, item2"
    );
    assert_eq!(
        h.render_template(r#"{{#concat this separator=", "}}{{this}}{{/concat}}"#, &data)
            .unwrap(),
        "Value 1, Value 2"
    );
    let tags = object(vec![
        ("key0", object(vec![("tag", text("Input"))])),
        ("key1", object(vec![("tag", text("Select"))])),
        ("key2", object(vec![("tag", text("Button"))])),
    ]);
    assert_eq!(
        h.render_template(
            r#"{{#concat "Form" this separator="" render_all=true}}<{{#if tag}}{{tag}}{{else}}{{this}}{{/if}}/>{{/concat}}"#,
            &tags
        )
        .unwrap(),
        "<Form/><Input/><Select/><Button/>"
    );
}

#[test]
fn helper_sub_renders_mapping_values_with_quotes() {
    let h = engine();
    let data = object(vec![(
        "obj",
        object(vec![("key0", labelled("Two")), ("key1", labelled("Three"))]),
    )]);
    assert_eq!(
        h.render_template(
            r#"{{#concat obj separator=", " render_all=true quotes=true}}[{{label}}]{{/concat}}"#,
            &data
        )
        .unwrap(),
        r#""[Two]", "[Three]""#
    );
    assert_eq!(
        h.render_template(
            r#"{{#concat obj separator=", " distinct=true}}{{label}}{{/concat}}"#,
            &data
        )
        .unwrap(),
        "Two, Three"
    );
}

#[test]
fn helper_switch_is_on_whatever_its_value() {
    let h = engine();
    assert_eq!(
        h.render_template(r#"{{concat "a" "a" "b" distinct=false}}"#, &String::new())
            .unwrap(),
        "a,b"
    );
    assert_eq!(
        h.render_template(r#"{{concat "a" quotes=false}}"#, &String::new())
            .unwrap(),
        r#""a""#
    );
    assert_eq!(
        h.render_template(r#"{{concat "a" "a" "b"}}"#, &String::new())
            .unwrap(),
        "a,a,b"
    );
}

#[test]
fn helper_ignores_single_quote_without_quotes() {
    let h = engine();
    assert_eq!(
        h.render_template(r#"{{concat "a" "b" single_quote=true}}"#, &String::new())
            .unwrap(),
        "a,b"
    );
}

#[test]
fn helper_ignores_unknown_options() {
    let h = engine();
    assert_eq!(
        h.render_template(r#"{{concat "a" "b" colour="red" limit=1}}"#, &String::new())
            .unwrap(),
        "a,b"
    );
}

#[test]
fn helper_renders_separator_from_data() {
    let h = engine();
    let data = object(vec![("sep", text(" | ")), ("n", Value::from(7))]);
    assert_eq!(
        h.render_template(r#"{{concat "a" "b" separator=sep}}"#, &data).unwrap(),
        "a | b"
    );
    assert_eq!(
        h.render_template(r#"{{concat "a" "b" separator=n}}"#, &data).unwrap(),
        "a7b"
    );
}

#[test]
fn helper_drops_null_and_missing_arguments() {
    let h = engine();
    let data = object(vec![("nothing", Value::Null), ("s", text("x"))]);
    assert_eq!(
        h.render_template(r#"{{concat nothing s absent}}"#, &data).unwrap(),
        "x"
    );
    assert_eq!(h.render_template(r#"{{concat}}"#, &data).unwrap(), "");
}

#[test]
fn helper_suppresses_repeats_inside_one_array() {
    let h = engine();
    let data = object(vec![(
        "arr",
        array(vec![text("One"), text("One"), text("Two"), text("One")]),
    )]);
    assert_eq!(
        h.render_template(r#"{{concat arr distinct=true}}"#, &data).unwrap(),
        "One,Two"
    );
    assert_eq!(
        h.render_template(r#"{{concat arr}}"#, &data).unwrap(),
        "One,One,Two,One"
    );
}

#[test]
fn helper_leaves_out_empty_texts_with_and_without_quotes() {
    let h = engine();
    let data = object(vec![
        ("arr", array(vec![text(""), text("x"), Value::Null])),
        ("obj", object(vec![("", Value::from(1)), ("k", Value::from(2))])),
    ]);
    assert_eq!(
        h.render_template(r#"{{concat "" arr obj "y"}}"#, &data).unwrap(),
        "x,k,y"
    );
    assert_eq!(
        h.render_template(r#"{{concat "" arr obj "y" quotes=true}}"#, &data).unwrap(),
        r#""x","k","y""#
    );
    assert_eq!(
        h.render_template(
            r#"{{#concat arr obj render_all=true quotes=true}}{{label}}{{/concat}}"#,
            &data
        )
        .unwrap(),
        ""
    );
}

#[test]
fn helper_fails_when_the_block_fails() {
    let mut h = engine();
    h.set_strict_mode(true);
    let data = object(vec![("obj", object(vec![("key0", labelled("Two"))]))]);
    assert!(h
        .render_template(r#"{{#concat obj}}{{missing}}{{/concat}}"#, &data)
        .is_err());
    assert_eq!(
        h.render_template(r#"{{#concat obj}}{{label}}{{/concat}}"#, &data)
            .unwrap(),
        "Two"
    );
}

#[test]
fn helper_keeps_the_order_of_a_mapping() {
    let h = engine();
    let data = object(vec![(
        "obj",
        object(vec![
            ("zeta", labelled("1")),
            ("alpha", labelled("2")),
            ("mid", labelled("3")),
        ]),
    )]);
    assert_eq!(
        h.render_template(r#"{{concat obj}}"#, &data).unwrap(),
        "zeta,alpha,mid"
    );
    assert_eq!(
        h.render_template(r#"{{#concat obj}}{{label}}{{/concat}}"#, &data)
            .unwrap(),
        "1,2,3"
    );
}

#[test]
fn helper_prints_scalars_in_their_own_form() {
    let h = engine();
    let data = object(vec![
        ("t", Value::Bool(true)),
        ("f", Value::Bool(false)),
        ("n", Value::from(-12)),
        ("nested", array(vec![array(vec![Value::from(1), Value::from(2)]), labelled("x")])),
    ]);
    assert_eq!(
        h.render_template(r#"{{concat t f n nested separator=";"}}"#, &data)
            .unwrap(),
        "true;false;-12;[1, 2];[object]"
    );
}

#[test]
fn reading_a_call_without_options_gives_the_defaults() {
    let h = engine();
    assert_eq!(
        h.render_template(r#"{{reading}}"#, &Value::Null).unwrap(),
        "[,] distinct=false quotes=false single_quote=false render_all=false has_sub_template=false"
    );
}

#[test]
fn reading_a_call_takes_each_option_by_its_name() {
    let h = engine();
    assert_eq!(
        h.render_template(r#"{{reading separator=" - " quotes=1}}"#, &Value::Null)
            .unwrap(),
        "[ - ] distinct=false quotes=true single_quote=false render_all=false has_sub_template=false"
    );
    assert_eq!(
        h.render_template(
            r#"{{reading distinct=true single_quote=false other="x"}}"#,
            &Value::Null
        )
        .unwrap(),
        "[,] distinct=true quotes=false single_quote=true render_all=false has_sub_template=false"
    );
    assert_eq!(
        h.render_template(r#"{{reading render_all=null separator=12}}"#, &Value::Null)
            .unwrap(),
        "[12] distinct=false quotes=false single_quote=false render_all=true has_sub_template=false"
    );
}

#[test]
fn reading_a_block_call_finds_the_sub_template() {
    let h = engine();
    assert_eq!(
        h.render_template(r#"{{#reading distinct=true}}{{this}}{{/reading}}"#, &Value::Null)
            .unwrap(),
        "[,] distinct=true quotes=false single_quote=false render_all=false has_sub_template=true"
    );
}

#[test]
fn reading_a_call_classifies_its_arguments_in_order() {
    let h = engine();
    let data = object(vec![
        ("s", text("One")),
        ("arr", array(vec![text("One"), text("Two")])),
        ("obj", object(vec![("Three", Value::from(3))])),
        ("nothing", Value::Null),
        ("deep", object(vec![("flag", Value::Bool(true))])),
    ]);
    assert_eq!(
        h.render_template(
            r#"{{reading s "lit" 5 arr obj nothing absent deep.flag}}"#,
            &data
        )
        .unwrap(),
        "[,] distinct=false quotes=false single_quote=false render_all=false has_sub_template=false \
         scalar(\"One\",Some([\"s\"])) scalar(\"lit\",None) scalar(5,None) sequence(2) mapping(1) \
         empty empty scalar(true,Some([\"deep\", \"flag\"]))"
    );
}
