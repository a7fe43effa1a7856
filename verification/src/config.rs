//! Process-wide configuration state: a snapshot of user settings in which
//! every field is independently optional, and the resolution that turns a
//! snapshot plus request-supplied editor preferences into concrete formatting
//! options. Precedence per option: an explicit configuration value, then (for
//! the indent string only) the editor preference, then the built-in default.

use vstd::prelude::*;
use vstd::string::StringExecFns;
use crate::adapter::ResolvedFormatterOptions;
use crate::adapter::ResolvedFormatterOptionsView;

verus! {

/// Formatter-related settings; absence of a field means "use the default".
pub struct FormatterConfig {
    pub array_auto_collapse: Option<bool>,
    pub array_auto_expand: Option<bool>,
    pub column_width: Option<usize>,
    pub array_trailing_comma: Option<bool>,
    pub trailing_newline: Option<bool>,
    pub indent_string: Option<String>,
    pub indent_tables: Option<bool>,
    pub crlf: Option<bool>,
    pub reorder_keys: Option<bool>,
}

/// One whole-snapshot configuration value; replaced wholesale on refresh.
pub struct Config {
    pub formatter: FormatterConfig,
}

/// The configuration in which every field is unset.
pub open spec fn spec_default_config() -> Config {
    Config {
        formatter: FormatterConfig {
            array_auto_collapse: None,
            array_auto_expand: None,
            column_width: None,
            array_trailing_comma: None,
            trailing_newline: None,
            indent_string: None,
            indent_tables: None,
            crlf: None,
            reorder_keys: None,
        },
    }
}

impl Default for Config {
    /// Every field unset: each handler falls back to its built-in default.
    fn default() -> (r: Config)
        ensures
            r == spec_default_config(),
    {
        Config {
            formatter: FormatterConfig {
                array_auto_collapse: None,
                array_auto_expand: None,
                column_width: None,
                array_trailing_comma: None,
                trailing_newline: None,
                indent_string: None,
                indent_tables: None,
                crlf: None,
                reorder_keys: None,
            },
        }
    }
}

pub open spec fn opt_or<T>(o: Option<T>, d: T) -> T {
    match o {
        Some(v) => v,
        None => d,
    }
}

/// The indent string that a resolution yields: the configured value if one is
/// set, else the editor preference (spaces of the requested width, or a tab).
pub open spec fn spec_resolved_indent(c: Config, insert_spaces: bool, tab_size: u32) -> Seq<char> {
    match c.formatter.indent_string {
        Some(s) => s@,
        None => if insert_spaces {
            Seq::new(tab_size as nat, |i: int| ' ')
        } else {
            seq!['\t']
        },
    }
}

/// Resolution of one configuration snapshot plus editor preferences into
/// concrete formatting options: a set configuration field wins; the indent
/// string alone falls back to the editor preference; everything else falls
/// back to a built-in default.
pub open spec fn spec_resolve(c: Config, insert_spaces: bool, tab_size: u32) -> ResolvedFormatterOptionsView {
    ResolvedFormatterOptionsView {
        array_auto_collapse: opt_or(c.formatter.array_auto_collapse, true),
        array_auto_expand: opt_or(c.formatter.array_auto_expand, true),
        column_width: opt_or(c.formatter.column_width, 80) as nat,
        array_trailing_comma: opt_or(c.formatter.array_trailing_comma, true),
        trailing_newline: opt_or(c.formatter.trailing_newline, true),
        indent_string: spec_resolved_indent(c, insert_spaces, tab_size),
        indent_tables: opt_or(c.formatter.indent_tables, false),
        crlf: opt_or(c.formatter.crlf, false),
        reorder_keys: opt_or(c.formatter.reorder_keys, false),
    }
}

/// A string of `n` spaces.
fn spaces(n: u32) -> (r: String)
    ensures
        r@ == Seq::new(n as nat, |i: int| ' '),
{
    proof {
        reveal_strlit(" ");
    }
    let mut r = String::new();
    let mut i: u32 = 0;
    while i < n
        invariant
            i <= n,
            r@ == Seq::new(i as nat, |k: int| ' '),
        decreases n - i,
    {
        r.append(" ");
        i = i + 1;
        proof {
            reveal_strlit(" ");
            assert(r@ =~= Seq::new(i as nat, |k: int| ' '));
        }
    }
    r
}

/// Resolves the formatting options for one request, per the documented
/// precedence.
pub fn resolve_format_options(config: &Config, insert_spaces: bool, tab_size: u32) -> (r:
    ResolvedFormatterOptions)
    ensures
        r@ == spec_resolve(*config, insert_spaces, tab_size),
{
    let indent_string: String = match &config.formatter.indent_string {
        Some(s) => s.clone(),
        None => {
            if insert_spaces {
                spaces(tab_size)
            } else {
                let t = String::from_str("\t");
                proof {
                    reveal_strlit("\t");
                    assert(t@ =~= seq!['\t']);
                }
                t
            }
        },
    };
    ResolvedFormatterOptions {
        array_auto_collapse: match config.formatter.array_auto_collapse {
            Some(v) => v,
            None => true,
        },
        array_auto_expand: match config.formatter.array_auto_expand {
            Some(v) => v,
            None => true,
        },
        column_width: match config.formatter.column_width {
            Some(v) => v,
            None => 80,
        },
        array_trailing_comma: match config.formatter.array_trailing_comma {
            Some(v) => v,
            None => true,
        },
        trailing_newline: match config.formatter.trailing_newline {
            Some(v) => v,
            None => true,
        },
        indent_string,
        indent_tables: match config.formatter.indent_tables {
            Some(v) => v,
            None => false,
        },
        crlf: match config.formatter.crlf {
            Some(v) => v,
            None => false,
        },
        reorder_keys: match config.formatter.reorder_keys {
            Some(v) => v,
            None => false,
        },
    }
}

/// Law: formatting resolution precedence. An explicit configuration value
/// overrides everything; for the indent string the request's editor
/// preference comes next; the built-in default applies only when no layer
/// supplies the value.
pub proof fn lemma_format_precedence(c: Config, insert_spaces: bool, tab_size: u32)
    ensures
        c.formatter.indent_string is Some ==> spec_resolve(c, insert_spaces, tab_size).indent_string
            == c.formatter.indent_string->0@,
        c.formatter.indent_string is None && insert_spaces ==> spec_resolve(
            c,
            insert_spaces,
            tab_size,
        ).indent_string == Seq::new(tab_size as nat, |i: int| ' '),
        c.formatter.indent_string is None && !insert_spaces ==> spec_resolve(
            c,
            insert_spaces,
            tab_size,
        ).indent_string == seq!['\t'],
        c.formatter.column_width is Some ==> spec_resolve(c, insert_spaces, tab_size).column_width
            == c.formatter.column_width->0,
        c.formatter.column_width is None ==> spec_resolve(c, insert_spaces, tab_size).column_width
            == 80,
{
}

} // verus!
