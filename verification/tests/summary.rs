use clipboard_investigator::entry::ClipboardEntry;
use clipboard_investigator::summary::get_clipboard_summary;

fn entry(uti: &str, data: &str, is_text: bool, size: usize) -> ClipboardEntry {
    ClipboardEntry { uti: uti.to_string(), data: data.to_string(), is_text, size }
}

#[test]
fn summary_of_empty_clipboard() {
    assert_eq!(get_clipboard_summary(&vec![]), "(empty)");
}

#[test]
fn summary_shows_first_text() {
    let es = vec![
        entry("public.png", "AAAA", false, 3),
        entry("public.utf8-plain-text", "hello world", true, 11),
        entry("public.html", "<b>other</b>", true, 12),
    ];
    assert_eq!(get_clipboard_summary(&es), "hello world");
}

#[test]
fn summary_puts_text_on_one_line() {
    let es = vec![entry("public.utf8-plain-text", "a\r\nb\nc", true, 6)];
    assert_eq!(get_clipboard_summary(&es), "a b c");
}

#[test]
fn summary_truncates_long_text() {
    let long: String = "x".repeat(61);
    let es = vec![entry("public.utf8-plain-text", &long, true, 61)];
    assert_eq!(get_clipboard_summary(&es), format!("{}...", "x".repeat(60)));
    let exact: String = "é".repeat(60);
    let es = vec![entry("public.utf8-plain-text", &exact, true, 120)];
    assert_eq!(get_clipboard_summary(&es), exact);
}

#[test]
fn truncation_counts_characters_before_removing_returns() {
    let text = format!("{}\r{}", "a".repeat(59), "bcdef");
    let es = vec![entry("public.utf8-plain-text", &text, true, text.len())];
    assert_eq!(get_clipboard_summary(&es), format!("{}...", "a".repeat(59)));
}

#[test]
fn summary_of_image() {
    let es = vec![
        entry("com.example.other", "", false, 0),
        entry("public.image.png", "AAAA", false, 1234),
        entry("public.image.tiff", "AAAA", false, 99),
    ];
    assert_eq!(get_clipboard_summary(&es), "[Image — 1234 bytes]");
}

#[test]
fn image_check_is_case_sensitive() {
    let es = vec![entry("public.IMAGE", "AAAA", false, 5)];
    assert_eq!(get_clipboard_summary(&es), "[1 types on clipboard]");
}

#[test]
fn summary_counts_other_types() {
    let es = vec![entry("public.png", "AAAA", false, 3), entry("com.adobe.pdf", "AAAA", false, 3)];
    assert_eq!(get_clipboard_summary(&es), "[2 types on clipboard]");
}
