//! The session: the Document Store and Configuration State owned by one
//! process-wide object, and the handlers that lifecycle and feature events
//! are dispatched to. Each handler acquires the session, reads or replaces
//! state, and returns a protocol-shaped result; updates carry a revision so
//! that diagnostics publication per document identity is monotonic.

use vstd::prelude::*;
use vstd::string::StringExecFns;
use crate::adapter::format_of;
use crate::adapter::parse_errors_of;
use crate::config::Config;
use crate::config::spec_default_config;
use crate::config::spec_resolve;
use crate::config::resolve_format_options;
use crate::adapter::format_text;
use crate::document::Diagnostic;
use crate::document::DiagnosticView;
use crate::document::DocumentRecord;
use crate::document::DocumentRecordView;
use crate::document::diag_views;
use crate::document::spec_diagnostics;
use crate::mapper::Position;
use crate::mapper::PositionRange;
use crate::mapper::spec_col_of;
use crate::mapper::spec_line_of;
use crate::store::DocumentStore;

verus! {

/// The error a feature request fails with when its document is not open or
/// its parameters are malformed.
#[derive(PartialEq, Eq, Structural, Clone, Copy, Debug)]
pub enum RequestError {
    InvalidParams,
}

/// A diagnostics publication: the document it is for, the diagnostics derived
/// from its current record, and the revision of that record.
pub struct PublishDiagnostics {
    pub uri: String,
    pub diagnostics: Vec<Diagnostic>,
    pub rev: u64,
}

/// Mathematical image of one publication.
pub ghost struct PublishView {
    pub uri: Seq<char>,
    pub diagnostics: Seq<DiagnosticView>,
    pub rev: u64,
}

impl View for PublishDiagnostics {
    type V = PublishView;

    open spec fn view(&self) -> PublishView {
        PublishView { uri: self.uri@, diagnostics: diag_views(self.diagnostics@), rev: self.rev }
    }
}

/// A full-document replacement edit, the formatter's result.
#[derive(Debug)]
pub struct TextEdit {
    pub range: PositionRange,
    pub new_text: String,
}

/// The capabilities the session declares on initialization.
pub struct Capabilities {
    pub full_document_sync: bool,
    pub semantic_tokens: bool,
    pub folding_ranges: bool,
    pub document_symbols: bool,
    pub formatting: bool,
    pub server_name: String,
    pub server_version: String,
}

/// The session object: the single owner of the Document Store and the
/// Configuration State, accessed one operation at a time.
pub struct Session {
    pub documents: DocumentStore,
    pub config: Config,
    pub rev: u64,
}

/// Mathematical image of the session.
pub ghost struct SessionView {
    pub documents: Map<Seq<char>, DocumentRecordView>,
    pub config: Config,
    pub rev: u64,
}

impl View for Session {
    type V = SessionView;

    open spec fn view(&self) -> SessionView {
        SessionView { documents: self.documents@, config: self.config, rev: self.rev }
    }
}

/// The record that an update with text `text` installs at revision `rev`.
pub open spec fn spec_record(text: Seq<char>, rev: u64) -> DocumentRecordView {
    DocumentRecordView { text, errors: parse_errors_of(text), rev }
}

/// Opening a document: a record derived wholly from `text` replaces whatever
/// the store held for `uri`, and the diagnostics of that exact record are
/// published under the new revision.
pub open spec fn spec_open(s: SessionView, uri: Seq<char>, text: Seq<char>) -> (
    SessionView,
    PublishView,
) {
    let rev = (s.rev + 1) as u64;
    (
        SessionView {
            documents: s.documents.insert(uri, spec_record(text, rev)),
            config: s.config,
            rev,
        },
        PublishView { uri, diagnostics: spec_diagnostics(text), rev },
    )
}

/// Changing a document: as opening if the document is open; the event is
/// ignored, and nothing published, if it is not.
pub open spec fn spec_change(s: SessionView, uri: Seq<char>, text: Seq<char>) -> (
    SessionView,
    Option<PublishView>,
) {
    if s.documents.contains_key(uri) {
        let (s1, p) = spec_open(s, uri, text);
        (s1, Some(p))
    } else {
        (s, None)
    }
}

/// Closing a document: its record leaves the store.
pub open spec fn spec_close(s: SessionView, uri: Seq<char>) -> SessionView {
    SessionView { documents: s.documents.remove(uri), config: s.config, rev: s.rev }
}

/// The shared contract of every feature read: the current record of the
/// requested document, or the invalid-parameters condition if it is not open
/// — never a silently empty result.
pub open spec fn spec_read_result(
    s: SessionView,
    uri: Seq<char>,
    r: Result<&DocumentRecord, RequestError>,
) -> bool {
    match r {
        Ok(d) => s.documents.contains_key(uri) && d@ == s.documents[uri] && d.wf(),
        Err(e) => !s.documents.contains_key(uri) && e == RequestError::InvalidParams,
    }
}

/// The capabilities declared on initialization: full-document sync, semantic
/// tokens, folding ranges, document symbols and formatting.
pub fn initialize() -> (c: Capabilities)
    ensures
        c.full_document_sync,
        c.semantic_tokens,
        c.folding_ranges,
        c.document_symbols,
        c.formatting,
        c.server_name@ == "ebToml"@,
        c.server_version@ == "1.0.0"@,
{
    Capabilities {
        full_document_sync: true,
        semantic_tokens: true,
        folding_ranges: true,
        document_symbols: true,
        formatting: true,
        server_name: String::from_str("ebToml"),
        server_version: String::from_str("1.0.0"),
    }
}

impl Session {
    pub open spec fn wf(&self) -> bool {
        self.documents.wf()
    }

    /// A fresh session: no open documents, default configuration.
    pub fn new() -> (s: Session)
        ensures
            s.wf(),
            s@.documents == Map::<Seq<char>, DocumentRecordView>::empty(),
            s@.config == spec_default_config(),
            s@.rev == 0,
    {
        Session { documents: DocumentStore::new(), config: Config::default(), rev: 0 }
    }

    /// Replaces the whole Configuration State with a fetched snapshot, or
    /// resets it to defaults when the fetch yielded nothing usable; the
    /// replacement is wholesale, so readers observe the old snapshot or the
    /// new one, never a partially-applied mix.
    pub fn update_configuration(&mut self, fetched: Option<Config>)
        requires
            old(self).wf(),
        ensures
            final(self).wf(),
            final(self)@.documents == old(self)@.documents,
            final(self)@.rev == old(self)@.rev,
            final(self)@.config == match fetched {
                Some(c) => c,
                None => spec_default_config(),
            },
    {
        self.config = match fetched {
            Some(c) => c,
            None => Config::default(),
        };
    }

    /// Read-only accessor for the current configuration snapshot.
    pub fn current(&self) -> (r: &Config)
        ensures
            *r == self@.config,
    {
        &self.config
    }

    /// A configuration-change notification triggers the same wholesale
    /// refresh as initialization.
    pub fn configuration_change(&mut self, fetched: Option<Config>)
        requires
            old(self).wf(),
        ensures
            final(self).wf(),
            final(self)@.documents == old(self)@.documents,
            final(self)@.rev == old(self)@.rev,
            final(self)@.config == match fetched {
                Some(c) => c,
                None => spec_default_config(),
            },
    {
        self.update_configuration(fetched);
    }

    /// Opens (or re-opens) a document: builds its record from the given text
    /// in one step, installs it, and returns the diagnostics of exactly that
    /// record for publication.
    pub fn document_open(&mut self, uri: String, text: String) -> (p: PublishDiagnostics)
        requires
            old(self).wf(),
            text@.len() <= crate::mapper::MAX_TEXT_LEN,
            old(self).rev < u64::MAX,
        ensures
            final(self).wf(),
            final(self)@ == spec_open(old(self)@, uri@, text@).0,
            p@ == spec_open(old(self)@, uri@, text@).1,
    {
        self.rev = self.rev + 1;
        let rec = DocumentRecord::new(text, self.rev);
        let diagnostics = rec.diagnostics();
        let p = PublishDiagnostics { uri: uri.clone(), diagnostics, rev: self.rev };
        self.documents.insert(uri, rec);
        p
    }

    /// Applies one full-replacement change to an open document; a change for
    /// a document that is not open is ignored and publishes nothing.
    pub fn document_change(&mut self, uri: String, text: String) -> (p: Option<PublishDiagnostics>)
        requires
            old(self).wf(),
            text@.len() <= crate::mapper::MAX_TEXT_LEN,
            old(self).rev < u64::MAX,
        ensures
            final(self).wf(),
            final(self)@ == spec_change(old(self)@, uri@, text@).0,
            match p {
                Some(pp) => spec_change(old(self)@, uri@, text@).1 == Some(pp@),
                None => spec_change(old(self)@, uri@, text@).1 is None,
            },
    {
        let present = self.documents.get(&uri).is_some();
        if present {
            let p = self.document_open(uri, text);
            Some(p)
        } else {
            None
        }
    }

    /// Closes a document: removes its record; reports whether one was held.
    pub fn document_close(&mut self, uri: &String) -> (r: bool)
        requires
            old(self).wf(),
        ensures
            final(self).wf(),
            final(self)@ == spec_close(old(self)@, uri@),
            r == old(self)@.documents.contains_key(uri@),
    {
        self.documents.remove(uri)
    }

    /// Feature read backing semantic tokens: the current record, or the
    /// invalid-parameters condition if the document is not open.
    pub fn semantic_tokens<'a>(&'a self, uri: &String) -> (r: Result<
        &'a DocumentRecord,
        RequestError,
    >)
        requires
            self.wf(),
        ensures
            spec_read_result(self@, uri@, r),
    {
        match self.documents.get(uri) {
            Some(d) => Ok(d),
            None => Err(RequestError::InvalidParams),
        }
    }

    /// Feature read backing folding ranges; same contract as every read.
    pub fn folding_ranges<'a>(&'a self, uri: &String) -> (r: Result<
        &'a DocumentRecord,
        RequestError,
    >)
        requires
            self.wf(),
        ensures
            spec_read_result(self@, uri@, r),
    {
        match self.documents.get(uri) {
            Some(d) => Ok(d),
            None => Err(RequestError::InvalidParams),
        }
    }

    /// Feature read backing document symbols; same contract as every read.
    pub fn document_symbols<'a>(&'a self, uri: &String) -> (r: Result<
        &'a DocumentRecord,
        RequestError,
    >)
        requires
            self.wf(),
        ensures
            spec_read_result(self@, uri@, r),
    {
        match self.documents.get(uri) {
            Some(d) => Ok(d),
            None => Err(RequestError::InvalidParams),
        }
    }

    /// Formats an open document: resolves the options per the documented
    /// precedence and returns one full-document replacement edit whose text
    /// is the external formatter's rendering of the document's exact current
    /// text under those options.
    pub fn format(&self, uri: &String, insert_spaces: bool, tab_size: u32) -> (r: Result<
        TextEdit,
        RequestError,
    >)
        requires
            self.wf(),
        ensures
            match r {
                Ok(e) => {
                    let text = self@.documents[uri@].text;
                    &&& self@.documents.contains_key(uri@)
                    &&& e.new_text@ == format_of(
                        text,
                        spec_resolve(self@.config, insert_spaces, tab_size),
                    )
                    &&& e.range.start == (Position { line: 0, character: 0 })
                    &&& e.range.end.line == spec_line_of(text, text.len() as int)
                    &&& e.range.end.character == spec_col_of(text, text.len() as int)
                },
                Err(err) => !self@.documents.contains_key(uri@) && err
                    == RequestError::InvalidParams,
            },
    {
        let doc = match self.documents.get(uri) {
            Some(d) => d,
            None => {
                return Err(RequestError::InvalidParams);
            },
        };
        let opts = resolve_format_options(&self.config, insert_spaces, tab_size);
        let new_text = format_text(doc.text.as_str(), &opts);
        let range = doc.mapper.all_range();
        Ok(TextEdit { range, new_text })
    }
}

/// Law: opening a document then immediately reading it yields a record whose
/// tree, errors and mapper were derived from the exact text that was opened.
pub proof fn lemma_open_then_read(s: SessionView, uri: Seq<char>, text: Seq<char>)
    ensures
        ({
            let s1 = spec_open(s, uri, text).0;
            &&& s1.documents.contains_key(uri)
            &&& s1.documents[uri].text == text
            &&& s1.documents[uri].errors == parse_errors_of(text)
        }),
{
}

/// Law: re-opening or changing an open document replaces its record
/// atomically: a read after the operation observes the complete record
/// derived from the new text, never a mix with any part of the old one.
pub proof fn lemma_replacement_atomic(s: SessionView, uri: Seq<char>, text: Seq<char>)
    requires
        s.documents.contains_key(uri),
    ensures
        ({
            let s1 = spec_change(s, uri, text).0;
            &&& s1.documents.contains_key(uri)
            &&& s1.documents[uri] == spec_record(text, (s.rev + 1) as u64)
        }),
{
}

/// Law: closing a document then requesting any feature for it finds nothing:
/// the store no longer holds the identity, so every read yields the
/// invalid-parameters condition rather than stale state.
pub proof fn lemma_close_then_read(s: SessionView, uri: Seq<char>)
    ensures
        !spec_close(s, uri).documents.contains_key(uri),
{
}

/// Law: diagnostics publication per document identity is monotonic: an update
/// following another carries a strictly greater revision, and the published
/// revision is the one stored with the record, so publications ordered by
/// revision are ordered as the updates were applied.
pub proof fn lemma_publication_monotonic(
    s: SessionView,
    uri: Seq<char>,
    t1: Seq<char>,
    t2: Seq<char>,
)
    requires
        s.rev + 2 <= u64::MAX,
    ensures
        ({
            let (s1, p1) = spec_open(s, uri, t1);
            let (s2, p2) = spec_change(s1, uri, t2);
            &&& p2 is Some
            &&& p1.rev < p2->0.rev
            &&& s2.documents[uri].rev == p2->0.rev
        }),
{
}

} // verus!
