use handlebars_concat::buffer::{accumulate, assemble, OutputBuffer};
use handlebars_concat::options::Options;

fn strings(texts: &[&str]) -> Vec<String> {
    texts.iter().map(|t| t.to_string()).collect()
}

fn options(separator: &str, distinct: bool, quotes: bool, single_quote: bool) -> Options {
    Options::resolve(Some(separator.to_string()), distinct, quotes, single_quote, false, false)
}

#[test]
fn new_buffer_is_empty() {
    let buffer = OutputBuffer::new();
    assert_eq!(buffer.len(), 0);
    assert_eq!(buffer.join(", "), "");
    assert!(buffer.into_texts().is_empty());
}

#[test]
fn contains_finds_exact_texts_only() {
    let mut buffer = OutputBuffer::new();
    buffer.accept("One".to_string(), false);
    buffer.accept("Two".to_string(), false);
    assert!(buffer.contains(&"One".to_string()));
    assert!(buffer.contains(&"Two".to_string()));
    assert!(!buffer.contains(&"one".to_string()));
    assert!(!buffer.contains(&"On".to_string()));
    assert!(!buffer.contains(&String::new()));
}

#[test]
fn accept_appends_every_candidate_without_distinct() {
    let mut buffer = OutputBuffer::new();
    buffer.accept("a".to_string(), false);
    buffer.accept("a".to_string(), false);
    buffer.accept("b".to_string(), false);
    assert_eq!(buffer.len(), 3);
    assert_eq!(buffer.into_texts(), strings(&["a", "a", "b"]));
}

#[test]
fn accept_skips_a_known_candidate_with_distinct() {
    let mut buffer = OutputBuffer::new();
    buffer.accept("a".to_string(), true);
    buffer.accept("b".to_string(), true);
    buffer.accept("a".to_string(), true);
    buffer.accept("b".to_string(), true);
    buffer.accept("c".to_string(), true);
    assert_eq!(buffer.into_texts(), strings(&["a", "b", "c"]));
}

#[test]
fn accept_takes_an_empty_candidate_as_any_other() {
    let mut buffer = OutputBuffer::new();
    buffer.accept(String::new(), true);
    buffer.accept(String::new(), true);
    assert_eq!(buffer.into_texts(), strings(&[""]));
}

#[test]
fn offer_drops_an_empty_text_before_quoting() {
    let quoted = options(",", false, true, false);
    let mut buffer = OutputBuffer::new();
    buffer.offer(String::new(), &quoted);
    assert_eq!(buffer.len(), 0);
    buffer.offer("x".to_string(), &quoted);
    buffer.offer(String::new(), &quoted);
    assert_eq!(buffer.into_texts(), strings(&["\"x\""]));
}

#[test]
fn offer_compares_texts_after_quoting() {
    let quoted = options(",", true, true, true);
    let mut buffer = OutputBuffer::new();
    buffer.accept("x".to_string(), true);
    buffer.offer("x".to_string(), &quoted);
    buffer.offer("x".to_string(), &quoted);
    assert_eq!(buffer.into_texts(), strings(&["x", "'x'"]));
}

#[test]
fn join_puts_the_separator_between_neighbours() {
    let mut buffer = OutputBuffer::new();
    buffer.accept("One".to_string(), false);
    assert_eq!(buffer.join(", "), "One");
    buffer.accept("Two".to_string(), false);
    assert_eq!(buffer.join(", "), "One, Two");
    buffer.accept("Three".to_string(), false);
    assert_eq!(buffer.join(", "), "One, Two, Three");
    assert_eq!(buffer.join(""), "OneTwoThree");
    assert_eq!(buffer.join("--"), "One--Two--Three");
}

#[test]
fn join_of_two_parts_is_the_parts_joined() {
    let texts = strings(&["a", "b", "c", "d", "e"]);
    let separator = "; ";
    let plain = options(separator, false, false, false);
    let whole = assemble(&texts, &plain);
    for cut in 1..texts.len() {
        let first = assemble(&texts[..cut].to_vec(), &plain);
        let second = assemble(&texts[cut..].to_vec(), &plain);
        assert_eq!(whole, format!("{}{}{}", first, separator, second));
    }
    assert_eq!(whole, "a; b; c; d; e");
}

#[test]
fn accumulate_keeps_every_occurrence_without_distinct() {
    let plain = options(",", false, false, false);
    let buffer = accumulate(&strings(&["a", "", "b", "a", "", "a"]), &plain);
    assert_eq!(buffer.into_texts(), strings(&["a", "b", "a", "a"]));
}

#[test]
fn accumulate_has_no_repeats_with_distinct() {
    let distinct = options(",", true, false, false);
    let buffer = accumulate(&strings(&["a", "", "b", "a", "", "a", "c", "b"]), &distinct);
    assert_eq!(buffer.into_texts(), strings(&["a", "b", "c"]));
}

#[test]
fn accumulate_never_holds_an_empty_element() {
    for quotes in [false, true] {
        for distinct in [false, true] {
            let settings = options(",", distinct, quotes, false);
            let buffer = accumulate(&strings(&["", "", "x", ""]), &settings);
            let texts = buffer.into_texts();
            assert_eq!(texts.len(), 1);
            assert!(!texts.contains(&String::new()));
            assert!(!texts.contains(&"\"\"".to_string()));
        }
    }
    let nothing = accumulate(&strings(&["", ""]), &options(",", false, true, false));
    assert_eq!(nothing.len(), 0);
}

#[test]
fn quotes_only_add_the_marks() {
    let texts = strings(&["One", "", "Two", "One", "a\"b", "Three"]);
    for distinct in [false, true] {
        for single_quote in [false, true] {
            let off = accumulate(&texts, &options(", ", distinct, false, single_quote)).into_texts();
            let on_options = options(", ", distinct, true, single_quote);
            let mark = on_options.quotation_mark();
            let on = accumulate(&texts, &on_options).into_texts();
            assert_eq!(on.len(), off.len());
            for (quoted, plain) in on.iter().zip(off.iter()) {
                assert_eq!(quoted, &format!("{}{}{}", mark, plain, mark));
                assert_eq!(&quoted[mark.len()..quoted.len() - mark.len()], plain);
            }
        }
    }
}

#[test]
fn assemble_joins_what_was_accumulated() {
    let texts = strings(&["One", "Two"]);
    assert_eq!(assemble(&texts, &options(", ", false, false, false)), "One, Two");
    assert_eq!(
        assemble(&texts, &options(", ", false, true, false)),
        "\"One\", \"Two\""
    );
    assert_eq!(
        assemble(&texts, &options(", ", false, true, true)),
        "'One', 'Two'"
    );
    assert_eq!(assemble(&texts, &Options::default()), "One,Two");
    assert_eq!(assemble(&Vec::new(), &Options::default()), "");
    assert_eq!(
        assemble(&strings(&["One", "One", "Two", "Three"]), &options(", ", true, false, false)),
        "One, Two, Three"
    );
}
