use toml_lsp_core::config::Config;
use toml_lsp_core::config::FormatterConfig;
use toml_lsp_core::config::resolve_format_options;
use toml_lsp_core::mapper::Position;
use toml_lsp_core::session::RequestError;
use toml_lsp_core::session::Session;
use toml_lsp_core::session::initialize;

fn unset() -> FormatterConfig {
    FormatterConfig {
        array_auto_collapse: None,
        array_auto_expand: None,
        column_width: None,
        array_trailing_comma: None,
        trailing_newline: None,
        indent_string: None,
        indent_tables: None,
        crlf: None,
        reorder_keys: None,
    }
}

#[test]
fn capabilities_declared() {
    let c = initialize();
    assert!(c.full_document_sync);
    assert!(c.semantic_tokens);
    assert!(c.folding_ranges);
    assert!(c.document_symbols);
    assert!(c.formatting);
    assert_eq!(c.server_name, "ebToml");
    assert_eq!(c.server_version, "1.0.0");
}

#[test]
fn open_then_read_same_text() {
    let mut s = Session::new();
    let p = s.document_open("file:///a.toml".to_string(), "a = 1\n".to_string());
    assert_eq!(p.uri, "file:///a.toml");
    assert!(p.diagnostics.is_empty());
    let d = s.semantic_tokens(&"file:///a.toml".to_string()).unwrap();
    assert_eq!(d.text, "a = 1\n");
    assert_eq!(d.mapper.len(), 6);
    assert!(d.errors.is_empty());
}

#[test]
fn change_replaces_record() {
    let mut s = Session::new();
    let uri = "file:///a.toml".to_string();
    let p1 = s.document_open(uri.clone(), "a = 1".to_string());
    let p2 = s.document_change(uri.clone(), "b = 2".to_string()).unwrap();
    assert!(p2.rev > p1.rev);
    let d = s.document_symbols(&uri).unwrap();
    assert_eq!(d.text, "b = 2");
    assert_eq!(d.rev, p2.rev);
}

#[test]
fn change_of_unopened_document_is_ignored() {
    let mut s = Session::new();
    let uri = "file:///a.toml".to_string();
    assert!(s.document_change(uri.clone(), "a = 1".to_string()).is_none());
    assert_eq!(s.folding_ranges(&uri).unwrap_err(), RequestError::InvalidParams);
}

#[test]
fn close_then_every_feature_fails() {
    let mut s = Session::new();
    let uri = "file:///a.toml".to_string();
    s.document_open(uri.clone(), "a = 1".to_string());
    assert!(s.document_close(&uri));
    assert_eq!(s.semantic_tokens(&uri).unwrap_err(), RequestError::InvalidParams);
    assert_eq!(s.folding_ranges(&uri).unwrap_err(), RequestError::InvalidParams);
    assert_eq!(s.document_symbols(&uri).unwrap_err(), RequestError::InvalidParams);
    assert!(s.format(&uri, true, 2).is_err());
    assert!(!s.document_close(&uri));
}

#[test]
fn publication_revisions_are_monotonic() {
    let mut s = Session::new();
    let uri = "file:///a.toml".to_string();
    let p1 = s.document_open(uri.clone(), "a = 1".to_string());
    let p2 = s.document_change(uri.clone(), "a = 2".to_string()).unwrap();
    let p3 = s.document_change(uri.clone(), "a = 3".to_string()).unwrap();
    assert!(p1.rev < p2.rev);
    assert!(p2.rev < p3.rev);
}

#[test]
fn format_precedence_three_layers() {
    // Explicit configuration wins.
    let mut cfg = unset();
    cfg.indent_string = Some("    ".to_string());
    cfg.column_width = Some(100);
    let r = resolve_format_options(&Config { formatter: cfg }, true, 2);
    assert_eq!(r.indent_string, "    ");
    assert_eq!(r.column_width, 100);
    // Editor preference decides the indent string when unset.
    let r = resolve_format_options(&Config { formatter: unset() }, true, 3);
    assert_eq!(r.indent_string, "   ");
    let r = resolve_format_options(&Config { formatter: unset() }, false, 3);
    assert_eq!(r.indent_string, "\t");
    // Built-in defaults fill everything else.
    assert_eq!(r.column_width, 80);
    assert!(r.array_trailing_comma);
    assert!(r.trailing_newline);
    assert!(!r.reorder_keys);
}

#[test]
fn format_precedence_through_formatter() {
    // Three identical documents, formatted with the indent string supplied by
    // a different layer each time: configuration, then editor preference.
    let text = "[a]\n[a.b]\nc = 1";
    let indented = |indent_cfg: Option<&str>, insert_spaces: bool, tab_size: u32| {
        let mut s = Session::new();
        let uri = "file:///a.toml".to_string();
        s.document_open(uri.clone(), text.to_string());
        let mut cfg = unset();
        cfg.indent_tables = Some(true);
        cfg.indent_string = indent_cfg.map(str::to_string);
        s.update_configuration(Some(Config { formatter: cfg }));
        s.format(&uri, insert_spaces, tab_size).unwrap().new_text
    };
    let by_config = indented(Some("___"), true, 2);
    assert!(by_config.contains("\n___[a.b]"), "{by_config:?}");
    let by_editor_spaces = indented(None, true, 2);
    assert!(by_editor_spaces.contains("\n  [a.b]"), "{by_editor_spaces:?}");
    let by_editor_tab = indented(None, false, 2);
    assert!(by_editor_tab.contains("\n\t[a.b]"), "{by_editor_tab:?}");
}

#[test]
fn refresh_failure_resets_to_defaults() {
    let mut s = Session::new();
    let mut cfg = unset();
    cfg.reorder_keys = Some(true);
    s.update_configuration(Some(Config { formatter: cfg }));
    assert_eq!(s.config.formatter.reorder_keys, Some(true));
    s.configuration_change(None);
    assert!(s.config.formatter.reorder_keys.is_none());
    assert!(s.config.formatter.column_width.is_none());
}

#[test]
fn valid_document_formats_without_trailing_comma() {
    let mut s = Session::new();
    let uri = "file:///a.toml".to_string();
    let p = s.document_open(uri.clone(), "a = 1\nb = [1,2,]".to_string());
    assert!(p.diagnostics.is_empty());
    let mut cfg = unset();
    cfg.array_trailing_comma = Some(false);
    s.update_configuration(Some(Config { formatter: cfg }));
    let edit = s.format(&uri, true, 2).unwrap();
    assert_eq!(edit.new_text, "a = 1\nb = [1, 2]\n");
    assert_eq!(edit.range.start, Position { line: 0, character: 0 });
    assert_eq!(edit.range.end, Position { line: 1, character: 10 });
}

#[test]
fn open_two_close_one() {
    let mut s = Session::new();
    let a = "file:///a.toml".to_string();
    let b = "file:///b.toml".to_string();
    s.document_open(a.clone(), "a = 1".to_string());
    s.document_open(b.clone(), "b = 2".to_string());
    assert!(s.document_close(&a));
    assert_eq!(s.format(&a, true, 2).unwrap_err(), RequestError::InvalidParams);
    assert_eq!(s.semantic_tokens(&b).unwrap().text, "b = 2");
}

#[test]
fn malformed_document_yields_diagnostics() {
    let mut s = Session::new();
    let uri = "file:///bad.toml".to_string();
    let p = s.document_open(uri.clone(), "a = ".to_string());
    assert!(!p.diagnostics.is_empty());
    assert!(!p.diagnostics[0].message.is_empty());
    // The span lies within the single line of the document.
    assert_eq!(p.diagnostics[0].range.start.line, 0);
    assert!(p.diagnostics[0].range.end.character <= 4);
    // The record stays readable: a broken document still has a tree.
    assert!(s.semantic_tokens(&uri).is_ok());
}

#[test]
fn diagnostic_positions_on_multibyte_text() {
    // The grammar reports byte spans; the '@' sits at byte 11 but at
    // character 9 and UTF-16 column 9, past a string of two-byte characters.
    let mut s = Session::new();
    let uri = "file:///m.toml".to_string();
    let p = s.document_open(uri, "k = \"\u{e9}\u{e9}\" @".to_string());
    assert!(!p.diagnostics.is_empty());
    let d = &p.diagnostics[0];
    assert_eq!(d.range.start.line, 0);
    assert_eq!(d.range.start.character, 9);
}

#[test]
fn reopen_overwrites() {
    let mut s = Session::new();
    let uri = "file:///a.toml".to_string();
    s.document_open(uri.clone(), "a = 1".to_string());
    s.document_open(uri.clone(), "c = 3".to_string());
    assert_eq!(s.semantic_tokens(&uri).unwrap().text, "c = 3");
}
