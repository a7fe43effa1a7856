//! Adapter around the external grammar and formatter: the parser producing a
//! syntax tree plus structural error list from raw text, and the formatter
//! rendering a tree back to text. Both are pure functions of their inputs;
//! their results are given names that the handlers' contracts speak of.

use vstd::prelude::*;

verus! {

/// One structural error reported by the grammar: a byte span into the source
/// text and a human-readable message.
#[derive(Debug)]
pub struct ParseError {
    pub start: usize,
    pub end: usize,
    pub message: String,
}

/// Mathematical image of one structural error.
pub ghost struct ParseErrorView {
    pub start: nat,
    pub end: nat,
    pub message: Seq<char>,
}

impl View for ParseError {
    type V = ParseErrorView;

    open spec fn view(&self) -> ParseErrorView {
        ParseErrorView { start: self.start as nat, end: self.end as nat, message: self.message@ }
    }
}

pub open spec fn error_views(es: Seq<ParseError>) -> Seq<ParseErrorView> {
    es.map_values(|e: ParseError| e@)
}

/// The structural errors that the external grammar reports for a text; the
/// grammar is total, so this is a function of the text alone.
pub uninterp spec fn parse_errors_of(text: Seq<char>) -> Seq<ParseErrorView>;

#[verifier::external_type_specification]
#[verifier::external_body]
pub struct ExParse(taplo::parser::Parse);

/// Relies on `taplo::parser::parse`: a total parser that never fails on
/// malformed input and whose green tree and error list are a function of the
/// source text alone; its error spans are byte offsets into the source.
#[verifier::external_body]
pub(crate) fn parse_text(text: &str) -> (r: (taplo::parser::Parse, Vec<ParseError>))
    ensures
        error_views(r.1@) == parse_errors_of(text@),
{
    let parse = taplo::parser::parse(text);
    let errors = parse
        .errors
        .iter()
        .map(
            |e| ParseError {
                start: u32::from(e.range.start()) as usize,
                end: u32::from(e.range.end()) as usize,
                message: e.message.clone(),
            },
        )
        .collect();
    (parse, errors)
}

/// Formatting options with every choice resolved to a concrete value.
pub struct ResolvedFormatterOptions {
    pub array_auto_collapse: bool,
    pub array_auto_expand: bool,
    pub column_width: usize,
    pub array_trailing_comma: bool,
    pub trailing_newline: bool,
    pub indent_string: String,
    pub indent_tables: bool,
    pub crlf: bool,
    pub reorder_keys: bool,
}

/// Mathematical image of resolved formatting options.
pub ghost struct ResolvedFormatterOptionsView {
    pub array_auto_collapse: bool,
    pub array_auto_expand: bool,
    pub column_width: nat,
    pub array_trailing_comma: bool,
    pub trailing_newline: bool,
    pub indent_string: Seq<char>,
    pub indent_tables: bool,
    pub crlf: bool,
    pub reorder_keys: bool,
}

impl View for ResolvedFormatterOptions {
    type V = ResolvedFormatterOptionsView;

    open spec fn view(&self) -> ResolvedFormatterOptionsView {
        ResolvedFormatterOptionsView {
            array_auto_collapse: self.array_auto_collapse,
            array_auto_expand: self.array_auto_expand,
            column_width: self.column_width as nat,
            array_trailing_comma: self.array_trailing_comma,
            trailing_newline: self.trailing_newline,
            indent_string: self.indent_string@,
            indent_tables: self.indent_tables,
            crlf: self.crlf,
            reorder_keys: self.reorder_keys,
        }
    }
}

/// The text that the external formatter renders for a source text under the
/// given options; a function of the two alone.
pub uninterp spec fn format_of(text: Seq<char>, opts: ResolvedFormatterOptionsView) -> Seq<char>;

/// Relies on `taplo::formatter::format`: parses the text and renders it under
/// the given options, skipping spans with syntax errors; the result depends on
/// the text and the options alone.
#[verifier::external_body]
pub(crate) fn format_text(text: &str, opts: &ResolvedFormatterOptions) -> (r: String)
    ensures
        r@ == format_of(text@, opts@),
{
    let o = taplo::formatter::Options {
        array_auto_collapse: opts.array_auto_collapse,
        array_auto_expand: opts.array_auto_expand,
        column_width: opts.column_width,
        array_trailing_comma: opts.array_trailing_comma,
        trailing_newline: opts.trailing_newline,
        indent_string: opts.indent_string.clone(),
        indent_tables: opts.indent_tables,
        crlf: opts.crlf,
        reorder_keys: opts.reorder_keys,
        ..taplo::formatter::Options::default()
    };
    taplo::formatter::format(text, o)
}

} // verus!
