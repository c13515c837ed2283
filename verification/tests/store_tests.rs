use lsp_core::docs::{DocStore, DocError, Edit, apply_edit, apply_edits};
use lsp_core::words::parse_word_list;

fn b(s: &str) -> Vec<u8> {
    s.as_bytes().to_vec()
}

#[test]
fn open_then_lookup() {
    let mut st = DocStore::new();
    st.open_doc(b("file:///a"), 1, b("hello"));
    let d = st.lookup(&b("file:///a")).expect("document should be open");
    assert_eq!(d.version, 1);
    assert_eq!(d.text, b("hello"));
    assert!(st.lookup(&b("file:///b")).is_none());
}

#[test]
fn reopen_overwrites() {
    let mut st = DocStore::new();
    st.open_doc(b("u"), 1, b("one"));
    st.open_doc(b("u"), 7, b("two"));
    let d = st.lookup(&b("u")).expect("document should be open");
    assert_eq!(d.version, 7);
    assert_eq!(d.text, b("two"));
}

#[test]
fn change_applies_edits_in_order() {
    let mut st = DocStore::new();
    st.open_doc(b("u"), 1, b("abcdef"));
    let edits = vec![
        Edit::Range { start: 1, end: 3, text: b("XY") },
        Edit::Range { start: 0, end: 1, text: b("") },
    ];
    assert!(st.change_doc(&b("u"), 2, &edits).is_ok());
    let d = st.lookup(&b("u")).expect("document should be open");
    assert_eq!(d.version, 2);
    // "abcdef" -> "aXYdef" -> "XYdef"
    assert_eq!(d.text, b("XYdef"));
}

#[test]
fn change_full_replacement() {
    let mut st = DocStore::new();
    st.open_doc(b("u"), 1, b("old text"));
    let edits = vec![Edit::Full { text: b("new") }];
    assert!(st.change_doc(&b("u"), 2, &edits).is_ok());
    assert_eq!(st.lookup(&b("u")).unwrap().text, b("new"));
}

#[test]
fn change_missing_uri_fails() {
    let mut st = DocStore::new();
    let edits = vec![Edit::Full { text: b("x") }];
    match st.change_doc(&b("nope"), 1, &edits) {
        Err(DocError::DocumentNotFound) => {},
        _ => panic!("expected the document-not-found error"),
    }
}

#[test]
fn opened_changed_closed_then_change_and_save_fail() {
    let mut st = DocStore::new();
    st.open_doc(b("d1"), 1, b("text"));
    let edits = vec![Edit::Full { text: b("text2") }];
    assert!(st.change_doc(&b("d1"), 2, &edits).is_ok());
    assert!(st.close_doc(&b("d1")).is_ok());
    match st.change_doc(&b("d1"), 3, &edits) {
        Err(DocError::DocumentNotFound) => {},
        _ => panic!("change after close must fail"),
    }
    match st.save_doc(&b("d1")) {
        Err(DocError::DocumentNotFound) => {},
        _ => panic!("save after close must fail"),
    }
}

#[test]
fn close_missing_uri_fails() {
    let mut st = DocStore::new();
    match st.close_doc(&b("ghost")) {
        Err(DocError::DocumentNotFound) => {},
        _ => panic!("expected the document-not-found error"),
    }
}

#[test]
fn save_keeps_store() {
    let mut st = DocStore::new();
    st.open_doc(b("u"), 1, b("t"));
    assert!(st.save_doc(&b("u")).is_ok());
    assert_eq!(st.lookup(&b("u")).unwrap().text, b("t"));
}

#[test]
fn range_edit_clamps_out_of_bounds() {
    let t = b("abc");
    let e = Edit::Range { start: 2, end: 99, text: b("Z") };
    assert_eq!(apply_edit(&t, &e), b("abZ"));
    let e2 = Edit::Range { start: 99, end: 99, text: b("!") };
    assert_eq!(apply_edit(&t, &e2), b("abc!"));
}

#[test]
fn empty_edit_list_keeps_text() {
    let t = b("same");
    let edits: Vec<Edit> = Vec::new();
    assert_eq!(apply_edits(&t, &edits), b("same"));
}

#[test]
fn word_list_trims_skips_blanks_and_dedups() {
    let content = b("cat\ncar\n\n  dog  \ncat\n\t\n");
    let words = parse_word_list(&content);
    assert_eq!(words, vec![b("cat"), b("car"), b("dog")]);
}

#[test]
fn word_list_handles_crlf_endings() {
    let content = b("alpha\r\napple\r\n");
    let words = parse_word_list(&content);
    assert_eq!(words, vec![b("alpha"), b("apple")]);
}

#[test]
fn word_list_of_empty_text_is_empty() {
    let words = parse_word_list(&b(""));
    assert!(words.is_empty());
}

#[test]
fn word_list_without_final_newline() {
    let words = parse_word_list(&b("one\ntwo"));
    assert_eq!(words, vec![b("one"), b("two")]);
}
