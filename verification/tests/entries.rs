use clipboard_investigator::entry::{entry_for_item, read_clipboard_entries, ClipboardEntry, PasteboardItem};
use clipboard_investigator::uti::{uti_is_text, uti_markers};

fn item(uti: &str, text: Option<&str>, data: Option<Vec<u8>>) -> PasteboardItem {
    PasteboardItem { uti: uti.to_string(), text: text.map(|t| t.to_string()), data }
}

fn describe(e: &ClipboardEntry) -> (String, String, bool, usize) {
    (e.uti.clone(), e.data.clone(), e.is_text, e.size)
}

#[test]
fn text_types_are_recognised() {
    assert!(uti_is_text("public.utf8-plain-text"));
    assert!(uti_is_text("public.html"));
    assert!(uti_is_text("public.rtf"));
    assert!(uti_is_text("public.url"));
    assert!(uti_is_text("public.file-url"));
    assert!(uti_is_text("com.apple.webarchive.xml"));
    assert!(uti_is_text("org.chromium.source-url"));
    assert!(uti_is_text("NSStringPboardType"));
    assert!(uti_is_text("public.json"));
    assert!(uti_is_text("com.apple.plist"));
    assert!(uti_is_text("public.utf16-external-plain-text"));
}

#[test]
fn binary_types_are_not_text() {
    assert!(!uti_is_text("public.png"));
    assert!(!uti_is_text("public.tiff"));
    assert!(!uti_is_text("com.adobe.pdf"));
    assert!(!uti_is_text(""));
}

#[test]
fn classification_ignores_case() {
    assert!(uti_is_text("PUBLIC.UTF8-PLAIN-TEXT"));
    assert!(uti_is_text("Apple HTML pasteboard type"));
    assert!(!uti_is_text("PUBLIC.PNG"));
}

#[test]
fn markers_are_matched_on_the_lowercase_form_only() {
    assert!(uti_markers("public.text"));
    assert!(!uti_markers("public.TEXT"));
    assert!(uti_markers("public.url"));
    assert!(!uti_markers("public.png"));
}

#[test]
fn text_entry_counts_utf8_bytes() {
    let e = entry_for_item(&item("public.utf8-plain-text", Some("héllo"), None)).unwrap();
    assert_eq!(describe(&e), ("public.utf8-plain-text".to_string(), "héllo".to_string(), true, 6));
}

#[test]
fn binary_entry_is_base64() {
    let e = entry_for_item(&item("public.png", None, Some(vec![0x89, b'P', b'N', b'G']))).unwrap();
    assert_eq!(describe(&e), ("public.png".to_string(), "iVBORw==".to_string(), false, 4));
    let e = entry_for_item(&item("public.data", None, Some(b"Man".to_vec()))).unwrap();
    assert_eq!(e.data, "TWFu");
    let e = entry_for_item(&item("public.data", None, Some(b"Ma".to_vec()))).unwrap();
    assert_eq!(e.data, "TWE=");
}

#[test]
fn empty_data_gives_empty_entry() {
    let e = entry_for_item(&item("public.png", None, Some(vec![]))).unwrap();
    assert_eq!(describe(&e), ("public.png".to_string(), String::new(), false, 0));
}

#[test]
fn text_type_without_string_falls_back_to_data() {
    let e = entry_for_item(&item("public.html", None, Some(b"<b>".to_vec()))).unwrap();
    assert_eq!(describe(&e), ("public.html".to_string(), "PGI+".to_string(), false, 3));
}

#[test]
fn string_of_binary_type_is_ignored() {
    let e = entry_for_item(&item("public.png", Some("ignored"), Some(vec![1, 2, 3]))).unwrap();
    assert_eq!(describe(&e), ("public.png".to_string(), "AQID".to_string(), false, 3));
}

#[test]
fn type_without_content_yields_nothing() {
    assert!(entry_for_item(&item("public.png", None, None)).is_none());
    assert!(entry_for_item(&item("public.png", Some("x"), None)).is_none());
}

#[test]
fn entries_keep_pasteboard_order_and_skip_empty_types() {
    let items = vec![
        item("public.utf8-plain-text", Some("hello"), None),
        item("com.example.nothing", None, None),
        item("public.png", None, Some(vec![0, 0, 0])),
        item("public.html", Some("<p>hi</p>"), None),
    ];
    let entries = read_clipboard_entries(&items);
    let got: Vec<_> = entries.iter().map(describe).collect();
    assert_eq!(
        got,
        vec![
            ("public.utf8-plain-text".to_string(), "hello".to_string(), true, 5),
            ("public.png".to_string(), "AAAA".to_string(), false, 3),
            ("public.html".to_string(), "<p>hi</p>".to_string(), true, 9),
        ]
    );
}

#[test]
fn no_items_no_entries() {
    assert!(read_clipboard_entries(&vec![]).is_empty());
}

#[test]
fn binary_entries_are_base64_of_the_right_length() {
    for n in 0..40usize {
        let bytes: Vec<u8> = (0..n).map(|i| (i * 37 % 256) as u8).collect();
        let e = entry_for_item(&item("public.data", None, Some(bytes))).unwrap();
        assert_eq!(e.size, n);
        assert_eq!(e.data.len(), 4 * ((n + 2) / 3));
        assert!(e.data.chars().all(|c| c.is_ascii_alphanumeric() || c == '+' || c == '/' || c == '='));
    }
}

#[test]
fn ascii_classification_ignores_case_and_keeps_text_with_more_around() {
    for s in ["public.utf8-plain-text", "Public.HTML", "public.png", "com.apple.pict", "PUBLIC.URL", "x"] {
        assert_eq!(uti_is_text(s), uti_is_text(&s.to_ascii_uppercase()));
        assert_eq!(uti_is_text(s), uti_is_text(&s.to_ascii_lowercase()));
        if uti_is_text(s) {
            assert!(uti_is_text(&format!("com.example.{}.v2", s)));
        }
    }
}
