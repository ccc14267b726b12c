use clipboard_investigator::cli::{cli_mode, cli_report, CliMode};
use clipboard_investigator::entry::ClipboardEntry;
use clipboard_investigator::text::{chars_of, split_lines, str_contains, str_starts_with, decimal_string};

fn args(xs: &[&str]) -> Vec<String> {
    xs.iter().map(|s| s.to_string()).collect()
}

fn entry(uti: &str, data: &str, is_text: bool, size: usize) -> ClipboardEntry {
    ClipboardEntry { uti: uti.to_string(), data: data.to_string(), is_text, size }
}

#[test]
fn modes() {
    assert_eq!(cli_mode(&args(&["prog"])), CliMode::Gui);
    assert_eq!(cli_mode(&args(&["prog", "--cli"])), CliMode::Report);
    assert_eq!(cli_mode(&args(&["prog", "--json"])), CliMode::Json);
    assert_eq!(cli_mode(&args(&["prog", "--types"])), CliMode::Types);
    assert_eq!(cli_mode(&args(&["prog", "--types", "--json"])), CliMode::Json);
    assert_eq!(cli_mode(&args(&["prog", "--cli", "--types"])), CliMode::Types);
    assert_eq!(cli_mode(&args(&["prog", "--cli", "-h"])), CliMode::Help);
    assert_eq!(cli_mode(&args(&["prog", "--help"])), CliMode::Help);
    assert_eq!(cli_mode(&args(&["prog", "--verbose"])), CliMode::Gui);
}

#[test]
fn report_of_empty_clipboard() {
    assert_eq!(cli_report(&vec![]), vec!["(clipboard is empty)".to_string()]);
}

#[test]
fn report_lists_entries() {
    let es = vec![
        entry("public.utf8-plain-text", "line one\r\nline two", true, 18),
        entry("public.png", "AAAA", false, 2048),
        entry("public.html", "", true, 0),
    ];
    let got = cli_report(&es);
    let want: Vec<String> = [
        "3 type(s) on clipboard:\n",
        "  public.utf8-plain-text  [text]  18 B",
        "    line one",
        "    line two",
        "",
        "  public.png  [binary]  2.0 KB",
        "",
        "  public.html  [text]  0 B",
        "",
    ]
    .iter()
    .map(|s| s.to_string())
    .collect();
    assert_eq!(got, want);
}

#[test]
fn report_shows_five_lines_at_most() {
    let es = vec![entry("public.text", "1\n2\n3\n4\n5\n6", true, 11)];
    let got = cli_report(&es);
    assert_eq!(got[2..8].to_vec(), vec!["    1", "    2", "    3", "    4", "    5", "    ..."]);
    assert_eq!(got.len(), 9);
}

#[test]
fn report_marks_long_text() {
    let long = "y".repeat(250);
    let es = vec![entry("public.text", &long, true, 250)];
    let got = cli_report(&es);
    assert_eq!(got[2], format!("    {}", "y".repeat(200)));
    assert_eq!(got[3], "    ...");
}

#[test]
fn lines_agree_with_str_lines() {
    let samples = [
        "", "a", "a\n", "\n", "\n\n", "a\nb", "a\r\nb\r\n", "a\r", "\r\n", "\r", "x\r\ry\n\rz", "é\nü\r\n",
        "one\n\ntwo\n", "  \n\t\n",
    ];
    for s in samples {
        let got = split_lines(&chars_of(s));
        let want: Vec<String> = s.lines().map(|l| l.to_string()).collect();
        assert_eq!(got, want, "for {:?}", s);
    }
}

#[test]
fn text_helpers() {
    assert!(str_contains("public.utf8-plain-text", "plain"));
    assert!(str_contains("abc", ""));
    assert!(!str_contains("ab", "abc"));
    assert!(str_starts_with("openclip_1", "openclip"));
    assert!(!str_starts_with("open", "openclip"));
    assert_eq!(decimal_string(0), "0");
    assert_eq!(decimal_string(1234567890), "1234567890");
    assert_eq!(decimal_string(u64::MAX), u64::MAX.to_string());
}
