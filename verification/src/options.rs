//! The settings of a concatenation.

use crate::quoting::{apply_wrapper, wrapped};
use vstd::prelude::*;
use vstd::string::*;

verus! {

/// The settings of one concatenation, fixed before the first argument is
/// looked at.
#[derive(Clone, Debug)]
pub struct Options {
    /// The text put between two elements of the output.
    pub separator: String,
    /// Whether a text that the output already holds is left out.
    pub distinct: bool,
    /// Whether each element is put between quotation marks.
    pub quotes: bool,
    /// Whether the quotation mark is `'` instead of `"`.
    pub single_quote: bool,
    /// Whether scalars and sequence elements go through the sub-template too.
    pub render_all: bool,
    /// Whether the caller supplied a sub-template.
    pub has_sub_template: bool,
}

/// The settings of one concatenation, as a value.
pub struct OptionsModel {
    pub separator: Seq<char>,
    pub distinct: bool,
    pub quotes: bool,
    pub single_quote: bool,
    pub render_all: bool,
    pub has_sub_template: bool,
}

impl View for Options {
    type V = OptionsModel;

    open spec fn view(&self) -> OptionsModel {
        OptionsModel {
            separator: self.separator@,
            distinct: self.distinct,
            quotes: self.quotes,
            single_quote: self.single_quote,
            render_all: self.render_all,
            has_sub_template: self.has_sub_template,
        }
    }
}

/// The separator used where the caller names none.
pub open spec fn default_separator() -> Seq<char> {
    seq![',']
}

/// The settings for what the call site gave: the separator that it named, or
/// the default one, and each switch as it was present or not.
pub open spec fn resolved(
    separator: Option<Seq<char>>,
    distinct: bool,
    quotes: bool,
    single_quote: bool,
    render_all: bool,
    has_sub_template: bool,
) -> OptionsModel {
    OptionsModel {
        separator: match separator {
            Some(text) => text,
            None => default_separator(),
        },
        distinct,
        quotes,
        single_quote,
        render_all,
        has_sub_template,
    }
}

/// The text of `separator`, if there is one.
pub open spec fn separator_model(separator: Option<String>) -> Option<Seq<char>> {
    match separator {
        Some(text) => Some(text@),
        None => None,
    }
}

impl OptionsModel {
    /// The quotation mark in force: empty unless `quotes` is set, so that
    /// `single_quote` alone changes nothing.
    pub open spec fn mark(self) -> Seq<char> {
        if !self.quotes {
            Seq::empty()
        } else if self.single_quote {
            seq!['\'']
        } else {
            seq!['"']
        }
    }

    /// The form in which a text enters the output: between two marks where
    /// `quotes` is set. An empty text stays empty.
    pub open spec fn quoted(self, text: Seq<char>) -> Seq<char> {
        if text.len() == 0 {
            text
        } else {
            wrapped(text, self.mark(), self.quotes)
        }
    }

    /// Whether a scalar, or an element of a sequence, gets its text from the
    /// sub-template.
    pub open spec fn sub_renders_elements(self) -> bool {
        self.has_sub_template && self.render_all
    }

    /// Whether a value of a mapping gets its text from the sub-template.
    pub open spec fn sub_renders_values(self) -> bool {
        self.has_sub_template
    }
}

impl Options {
    /// Builds the settings from what the call site gave: the separator's text
    /// if it named one, and for each switch whether it was present.
    pub fn resolve(
        separator: Option<String>,
        distinct: bool,
        quotes: bool,
        single_quote: bool,
        render_all: bool,
        has_sub_template: bool,
    ) -> (options: Options)
        ensures
            options@ == resolved(
                separator_model(separator),
                distinct,
                quotes,
                single_quote,
                render_all,
                has_sub_template,
            ),
    {
        let separator = match separator {
            Some(text) => text,
            None => {
                proof {
                    reveal_strlit(",");
                }
                assert(","@ =~= default_separator());
                String::from_str(",")
            },
        };
        Options { separator, distinct, quotes, single_quote, render_all, has_sub_template }
    }

    /// The quotation mark in force, as a string.
    pub fn quotation_mark(&self) -> (mark: &'static str)
        ensures
            mark@ == self@.mark(),
    {
        proof {
            reveal_strlit("");
            reveal_strlit("'");
            reveal_strlit("\"");
        }
        if self.quotes {
            if self.single_quote {
                assert("'"@ =~= seq!['\'']);
                "'"
            } else {
                assert("\""@ =~= seq!['"']);
                "\""
            }
        } else {
            assert(""@ =~= Seq::<char>::empty());
            ""
        }
    }

    /// Puts `text` between quotation marks where `quotes` asks for it. An
    /// empty text is handed back as it is.
    pub fn quote(&self, text: String) -> (quoted: String)
        ensures
            quoted@ == self@.quoted(text@),
    {
        if text.as_str().is_empty() {
            text
        } else {
            apply_wrapper(text, self.quotation_mark(), self.quotes)
        }
    }

    /// Whether a scalar, or an element of a sequence, is sub-rendered.
    pub fn renders_elements(&self) -> (yes: bool)
        ensures
            yes == self@.sub_renders_elements(),
    {
        self.has_sub_template && self.render_all
    }

    /// Whether a value of a mapping is sub-rendered.
    pub fn renders_values(&self) -> (yes: bool)
        ensures
            yes == self@.sub_renders_values(),
    {
        self.has_sub_template
    }
}

impl Default for Options {
    /// The settings of a call that names no option and has no sub-template.
    fn default() -> (options: Options)
        ensures
            options@ == resolved(None, false, false, false, false, false),
    {
        Options::resolve(None, false, false, false, false, false)
    }
}

} // verus!
