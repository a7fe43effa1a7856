//! Document Record: the immutable pairing of one text snapshot's parse output
//! (tree plus structural error list) with the position mapper built from the
//! identical text. The pairing is established in a single construction step
//! and the record is never mutated, so no reader can observe the tree of one
//! snapshot with the mapper of another.

use vstd::prelude::*;
use crate::adapter::ParseError;
use crate::adapter::ParseErrorView;
use crate::adapter::error_views;
use crate::adapter::parse_errors_of;
use crate::adapter::parse_text;
use crate::mapper::Mapper;
use crate::mapper::PositionRange;
use crate::mapper::spec_char_of_byte;
use crate::mapper::spec_col_of;
use crate::mapper::spec_line_of;

verus! {

/// A protocol diagnostic: a position span and a message.
#[derive(Debug)]
pub struct Diagnostic {
    pub range: PositionRange,
    pub message: String,
}

/// Mathematical image of one diagnostic.
pub ghost struct DiagnosticView {
    pub start_line: int,
    pub start_character: int,
    pub end_line: int,
    pub end_character: int,
    pub message: Seq<char>,
}

impl View for Diagnostic {
    type V = DiagnosticView;

    open spec fn view(&self) -> DiagnosticView {
        DiagnosticView {
            start_line: self.range.start.line as int,
            start_character: self.range.start.character as int,
            end_line: self.range.end.line as int,
            end_character: self.range.end.character as int,
            message: self.message@,
        }
    }
}

pub open spec fn diag_views(ds: Seq<Diagnostic>) -> Seq<DiagnosticView> {
    ds.map_values(|d: Diagnostic| d@)
}

/// The diagnostic that surfaces one structural error of `text`: its byte span
/// translated to protocol positions, and its message.
pub open spec fn spec_diag_of(text: Seq<char>, e: ParseErrorView) -> DiagnosticView {
    let so = spec_char_of_byte(text, e.start as int);
    let eo = spec_char_of_byte(text, e.end as int);
    DiagnosticView {
        start_line: spec_line_of(text, so),
        start_character: spec_col_of(text, so),
        end_line: spec_line_of(text, eo),
        end_character: spec_col_of(text, eo),
        message: e.message,
    }
}

pub open spec fn spec_diagnostics_from(text: Seq<char>, errs: Seq<ParseErrorView>) -> Seq<
    DiagnosticView,
> {
    errs.map_values(|e: ParseErrorView| spec_diag_of(text, e))
}

/// The diagnostics derived from one text snapshot: exactly the structural
/// errors that the grammar reports for it, in order.
pub open spec fn spec_diagnostics(text: Seq<char>) -> Seq<DiagnosticView> {
    spec_diagnostics_from(text, parse_errors_of(text))
}

/// Surfaces each structural error as a diagnostic, in order, with its byte
/// span translated to positions through the snapshot's own mapper.
pub fn collect_diagnostics(errors: &Vec<ParseError>, mapper: &Mapper) -> (r: Vec<Diagnostic>)
    requires
        mapper.wf(),
    ensures
        diag_views(r@) == spec_diagnostics_from(mapper@, error_views(errors@)),
{
    let mut r: Vec<Diagnostic> = Vec::new();
    let n: usize = errors.len();
    let mut i: usize = 0;
    while i < n
        invariant
            n == errors@.len(),
            i <= n,
            mapper.wf(),
            r@.len() == i,
            forall|k: int|
                0 <= k < i ==> r@[k]@ == spec_diag_of(mapper@, error_views(errors@)[k]),
        decreases n - i,
    {
        let e = &errors[i];
        let so = mapper.char_offset_of_byte(e.start);
        let eo = mapper.char_offset_of_byte(e.end);
        let sp = mapper.offset_to_position(so);
        let ep = mapper.offset_to_position(eo);
        let d = Diagnostic {
            range: PositionRange { start: sp, end: ep },
            message: e.message.clone(),
        };
        proof {
            assert(error_views(errors@)[i as int] == errors@[i as int]@);
            assert(d@ == spec_diag_of(mapper@, error_views(errors@)[i as int]));
        }
        r.push(d);
        i = i + 1;
    }
    proof {
        assert(diag_views(r@) =~= spec_diagnostics_from(mapper@, error_views(errors@)));
    }
    r
}

/// One open document's current derived state: the parsed tree, the structural
/// errors, and the position mapper, all from the identical text snapshot.
#[derive(Debug)]
pub struct DocumentRecord {
    /// The syntax tree the external grammar produced for `text`.
    pub parse: taplo::parser::Parse,
    /// The structural errors the grammar reported for `text`.
    pub errors: Vec<ParseError>,
    /// The position mapper built from `text`.
    pub mapper: Mapper,
    /// The exact text snapshot both artifacts were derived from.
    pub text: String,
    /// The session revision at which this record was installed.
    pub rev: u64,
}

/// Mathematical image of one record.
pub ghost struct DocumentRecordView {
    pub text: Seq<char>,
    pub errors: Seq<ParseErrorView>,
    pub rev: u64,
}

impl View for DocumentRecord {
    type V = DocumentRecordView;

    open spec fn view(&self) -> DocumentRecordView {
        DocumentRecordView {
            text: self.text@,
            errors: error_views(self.errors@),
            rev: self.rev,
        }
    }
}

impl DocumentRecord {
    /// Tree, errors and mapper are always co-derived from the identical text.
    pub open spec fn wf(&self) -> bool {
        &&& self.mapper@ == self.text@
        &&& self.mapper.wf()
        &&& error_views(self.errors@) == parse_errors_of(self.text@)
    }

    /// Builds the record for one text snapshot in a single step, so the
    /// co-derivation invariant is established structurally.
    pub fn new(text: String, rev: u64) -> (r: DocumentRecord)
        requires
            text@.len() <= crate::mapper::MAX_TEXT_LEN,
        ensures
            r.wf(),
            r@ == (DocumentRecordView { text: text@, errors: parse_errors_of(text@), rev }),
    {
        let (parse, errors) = parse_text(text.as_str());
        let mapper = Mapper::new(text.as_str());
        DocumentRecord { parse, errors, mapper, text, rev }
    }

    /// The diagnostics that surface this record's structural errors.
    pub fn diagnostics(&self) -> (r: Vec<Diagnostic>)
        requires
            self.wf(),
        ensures
            diag_views(r@) == spec_diagnostics(self@.text),
    {
        collect_diagnostics(&self.errors, &self.mapper)
    }
}

} // verus!
