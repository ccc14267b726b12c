//! The command-line interface: which mode the arguments select, and the
//! lines of the plain-text report of the clipboard.

use vstd::prelude::*;
use crate::entry::ClipboardEntry;
use crate::size::{format_size, size_text};
use crate::text::{chars_of, decimal, is_slice_within, lemma_lines_are_slices, lines_of, split_lines, str_eq, strings_view, lemma_strings_view_push};

verus! {

/// What the program does, as its arguments select it.
#[derive(PartialEq, Eq, Structural, Debug, Clone, Copy)]
pub enum CliMode {
    /// Print the usage and exit.
    Help,
    /// Print the entries as JSON.
    Json,
    /// Print the type identifiers, one per line.
    Types,
    /// Print the plain-text report.
    Report,
    /// Launch the window and tray application.
    Gui,
}

/// One of the arguments is `a`.
pub open spec fn has_arg(args: Seq<String>, a: Seq<char>) -> bool {
    exists|i: int| 0 <= i < args.len() && (#[trigger] args[i])@ == a
}

/// The mode that the arguments select: help first; then, where any of
/// `--cli`, `--json`, `--types` is given, JSON before type names before the
/// report; the application otherwise.
pub open spec fn mode_of(args: Seq<String>) -> CliMode {
    if has_arg(args, "--help"@) || has_arg(args, "-h"@) {
        CliMode::Help
    } else if has_arg(args, "--json"@) {
        CliMode::Json
    } else if has_arg(args, "--types"@) {
        CliMode::Types
    } else if has_arg(args, "--cli"@) {
        CliMode::Report
    } else {
        CliMode::Gui
    }
}

/// One more argument `x` is one of the arguments exactly when it or an
/// earlier argument is.
proof fn lemma_has_arg_push(args: Seq<String>, x: String, a: Seq<char>)
    ensures
        has_arg(args.push(x), a) == (has_arg(args, a) || x@ == a),
{
    if has_arg(args, a) {
        let i = choose|i: int| 0 <= i < args.len() && (#[trigger] args[i])@ == a;
        assert(args.push(x)[i] == args[i]);
    }
    if x@ == a {
        assert(args.push(x)[args.len() as int] == x);
    }
    if has_arg(args.push(x), a) {
        let i = choose|i: int| 0 <= i < args.push(x).len() && (#[trigger] args.push(x)[i])@ == a;
        if i < args.len() {
            assert(args.push(x)[i] == args[i]);
        }
    }
}

proof fn lemma_flags_differ()
    ensures
        "--cli"@ != "--json"@,
        "--cli"@ != "--types"@,
        "--cli"@ != "--help"@,
        "--cli"@ != "-h"@,
        "--json"@ != "--types"@,
        "--json"@ != "--help"@,
        "--json"@ != "-h"@,
        "--types"@ != "--help"@,
        "--types"@ != "-h"@,
{
    reveal_strlit("--cli");
    reveal_strlit("--json");
    reveal_strlit("--types");
    reveal_strlit("--help");
    reveal_strlit("-h");
    assert("--json"@[2] != "--help"@[2]);
    assert("--cli"@.len() != "--types"@.len());
    assert("--cli"@.len() != "-h"@.len());
}

/// Help wins over every other flag: where `--help` or `-h` is among the
/// arguments, the program prints its usage, whatever else is given.
pub proof fn lemma_help_wins(args: Seq<String>)
    requires
        has_arg(args, "--help"@) || has_arg(args, "-h"@),
    ensures
        mode_of(args) == CliMode::Help,
{
}

/// `--json` wins over `--types` and `--cli`: without a help flag, an
/// argument list that holds `--json` selects JSON, whatever else it holds.
pub proof fn lemma_json_wins(args: Seq<String>)
    requires
        !(has_arg(args, "--help"@) || has_arg(args, "-h"@)),
        has_arg(args, "--json"@),
    ensures
        mode_of(args) == CliMode::Json,
{
}

/// `--types` wins over `--cli`: without a help flag and without `--json`,
/// an argument list that holds `--types` selects the type names.
pub proof fn lemma_types_wins_over_cli(args: Seq<String>)
    requires
        !(has_arg(args, "--help"@) || has_arg(args, "-h"@)),
        !has_arg(args, "--json"@),
        has_arg(args, "--types"@),
    ensures
        mode_of(args) == CliMode::Types,
{
}

/// `--json` and `--types` imply `--cli`: adding `--cli` to arguments that
/// already select a command-line mode changes nothing; adding it to
/// arguments that select the application selects the report.
pub proof fn lemma_cli_flag_is_implied(args: Seq<String>, x: String)
    requires
        x@ == "--cli"@,
    ensures
        mode_of(args) != CliMode::Gui ==> mode_of(args.push(x)) == mode_of(args),
        mode_of(args) == CliMode::Gui ==> mode_of(args.push(x)) == CliMode::Report,
{
    lemma_flags_differ();
    lemma_has_arg_push(args, x, "--cli"@);
    lemma_has_arg_push(args, x, "--json"@);
    lemma_has_arg_push(args, x, "--types"@);
    lemma_has_arg_push(args, x, "--help"@);
    lemma_has_arg_push(args, x, "-h"@);
}

/// Adding `--json` to arguments without a help flag selects JSON, whatever
/// they selected before.
pub proof fn lemma_adding_json_selects_json(args: Seq<String>, x: String)
    requires
        x@ == "--json"@,
        !(has_arg(args, "--help"@) || has_arg(args, "-h"@)),
    ensures
        mode_of(args.push(x)) == CliMode::Json,
{
    lemma_flags_differ();
    lemma_has_arg_push(args, x, "--json"@);
    lemma_has_arg_push(args, x, "--help"@);
    lemma_has_arg_push(args, x, "-h"@);
}

/// Whether one of the arguments is `a`.
fn any_arg(args: &Vec<String>, a: &str) -> (r: bool)
    ensures
        r == has_arg(args@, a@),
{
    let mut i: usize = 0;
    while i < args.len()
        invariant
            i <= args.len(),
            forall|j: int| 0 <= j < i ==> (#[trigger] args@[j])@ != a@,
        decreases args.len() - i,
    {
        if str_eq(args[i].as_str(), a) {
            return true;
        }
        i = i + 1;
    }
    false
}

/// The mode that the command-line arguments select (all of them are
/// looked at, the program's name too).
pub fn cli_mode(args: &Vec<String>) -> (r: CliMode)
    ensures
        r == mode_of(args@),
{
    let cli = any_arg(args, "--cli");
    let json = any_arg(args, "--json");
    let types = any_arg(args, "--types");
    let help = any_arg(args, "--help") || any_arg(args, "-h");
    if help {
        CliMode::Help
    } else if cli || json || types {
        if json {
            CliMode::Json
        } else if types {
            CliMode::Types
        } else {
            CliMode::Report
        }
    } else {
        CliMode::Gui
    }
}

/// The characters of a text shown in the report: at most 200.
pub open spec fn report_preview(data: Seq<char>) -> Seq<char> {
    if data.len() > 200 {
        data.take(200)
    } else {
        data
    }
}

/// The preview lines of a text, indented by four spaces: at most five.
pub open spec fn indented_lines(ls: Seq<Seq<char>>) -> Seq<Seq<char>> {
    let shown = if ls.len() > 5 { ls.take(5) } else { ls };
    shown.map_values(|l: Seq<char>| "    "@ + l)
}

/// The report lines of one entry: its type, kind and size; for a non-empty
/// text up to five lines of its first 200 characters, and `...` where the
/// text is longer or has more lines; and an empty line.
pub open spec fn entry_report(e: ClipboardEntry) -> Seq<Seq<char>> {
    let head = "  "@ + e.uti@ + "  ["@ + (if e.is_text {
        "text"@
    } else {
        "binary"@
    }) + "]  "@ + size_text(e.size as nat);
    let body = if e.is_text && e.data@.len() > 0 {
        indented_lines(lines_of(report_preview(e.data@))) + (if e.data@.len() > 200 || lines_of(e.data@).len() > 5 {
            seq!["    ..."@]
        } else {
            Seq::empty()
        })
    } else {
        Seq::empty()
    };
    seq![head] + body + seq![Seq::<char>::empty()]
}

/// A preview line of the report: four spaces and a stretch of the text that
/// ends at or before its 200th character.
pub open spec fn shows_early_text(line: Seq<char>, data: Seq<char>) -> bool {
    &&& line.len() >= 4
    &&& line.take(4) == "    "@
    &&& is_slice_within(line.skip(4), data, 200)
}

/// The report of an entry shows nothing of its text beyond the 200th
/// character: it has at most eight lines (the header, five preview lines,
/// `...` and the closing empty one), and every line between the header and
/// the closing one is `    ...` or four spaces followed by a stretch of the
/// text's first 200 characters.
pub proof fn lemma_report_preview_within_first_200(e: ClipboardEntry)
    ensures
        entry_report(e).len() <= 8,
        entry_report(e).len() >= 2,
        entry_report(e)[entry_report(e).len() - 1] == Seq::<char>::empty(),
        forall|j: int|
            0 < j < entry_report(e).len() - 1 ==> (#[trigger] entry_report(e)[j] == "    ..."@ || shows_early_text(
                entry_report(e)[j],
                e.data@,
            )),
{
    reveal_strlit("    ");
    let d = e.data@;
    let p = report_preview(d);
    let ls = lines_of(p);
    lemma_lines_are_slices(p);
    let shown = if ls.len() > 5 { ls.take(5) } else { ls };
    let ind = indented_lines(ls);
    assert(ind == shown.map_values(|l: Seq<char>| "    "@ + l));
    let r = entry_report(e);
    if e.is_text && d.len() > 0 {
        let dots: Seq<Seq<char>> = if d.len() > 200 || lines_of(d).len() > 5 { seq!["    ..."@] } else { Seq::empty() };
        let head = r[0];
        assert(r == seq![head] + (ind + dots) + seq![Seq::<char>::empty()]);
        assert forall|j: int| 0 < j < r.len() - 1 implies (#[trigger] r[j] == "    ..."@ || shows_early_text(r[j], d)) by {
            if j <= ind.len() {
                let l = shown[j - 1];
                assert(r[j] == ind[j - 1]);
                assert(r[j] == "    "@ + l);
                assert(r[j].take(4) =~= "    "@);
                assert(r[j].skip(4) =~= l);
                assert(ls.contains(l) || shown[j - 1] == ls[j - 1]);
                assert(l == ls[j - 1]);
                assert(is_slice_within(l, p, p.len() as int));
                let (a, b) = choose|a: int, b: int| 0 <= a <= b <= p.len() && b <= p.len() && l == #[trigger] p.subrange(a, b);
                assert(l =~= d.subrange(a, b));
                assert(is_slice_within(l, d, 200));
            } else {
                assert(r[j] == dots[j - 1 - ind.len()]);
            }
        }
    } else {
        assert(r =~= seq![r[0]] + seq![Seq::<char>::empty()]);
    }
}

/// The report lines of a sequence of entries, one entry after the other.
pub open spec fn entries_report(es: Seq<ClipboardEntry>) -> Seq<Seq<char>>
    decreases es.len(),
{
    if es.len() == 0 {
        Seq::empty()
    } else {
        entries_report(es.drop_last()) + entry_report(es.last())
    }
}

/// The lines of the plain-text report (each printed with a line ending of
/// its own): a note where the clipboard is empty; the number of types
/// otherwise, then each entry.
pub open spec fn report_lines(es: Seq<ClipboardEntry>) -> Seq<Seq<char>> {
    if es.len() == 0 {
        seq!["(clipboard is empty)"@]
    } else {
        seq![decimal(es.len()) + " type(s) on clipboard:\n"@] + entries_report(es)
    }
}

/// Appends `s` to `out`.
fn push_line(out: &mut Vec<String>, s: String)
    ensures
        strings_view(final(out)@) == strings_view(old(out)@).push(s@),
{
    proof {
        lemma_strings_view_push(out@, s);
    }
    out.push(s);
}

/// Appends the report lines of one entry.
fn push_entry_report(out: &mut Vec<String>, e: &ClipboardEntry)
    ensures
        strings_view(final(out)@) == strings_view(old(out)@) + entry_report(*e),
{
    let ghost start = strings_view(out@);
    let mut head = String::from_str("  ");
    head.append(e.uti.as_str());
    head.append("  [");
    if e.is_text {
        head.append("text");
    } else {
        head.append("binary");
    }
    head.append("]  ");
    let size = format_size(e.size);
    head.append(size.as_str());
    push_line(out, head);
    let ghost after_head = strings_view(out@);
    if e.is_text && e.data.as_str().is_empty() == false {
        let cs = chars_of(e.data.as_str());
        let n = cs.len();
        let shown: usize = if n > 200 { 200 } else { n };
        let mut preview: Vec<char> = Vec::new();
        let mut k: usize = 0;
        while k < shown
            invariant
                k <= shown <= n,
                n == cs.len(),
                preview@ == cs@.take(k as int),
            decreases shown - k,
        {
            preview.push(cs[k]);
            assert(preview@ =~= cs@.take(k + 1));
            k = k + 1;
        }
        assert(preview@ =~= report_preview(e.data@));
        let lines = split_lines(&preview);
        let count: usize = if lines.len() > 5 { 5 } else { lines.len() };
        let ghost ls = lines_of(preview@);
        let ghost shown_lines = if ls.len() > 5 { ls.take(5) } else { ls };
        let mut j: usize = 0;
        while j < count
            invariant
                j <= count,
                count == shown_lines.len(),
                strings_view(lines@) == ls,
                shown_lines == (if ls.len() > 5 { ls.take(5) } else { ls }),
                strings_view(out@) == after_head + shown_lines.take(j as int).map_values(|l: Seq<char>| "    "@ + l),
            decreases count - j,
        {
            let mut line = String::from_str("    ");
            line.append(lines[j].as_str());
            proof {
                assert(lines@[j as int]@ == strings_view(lines@)[j as int]);
                assert(shown_lines.take(j + 1).map_values(|l: Seq<char>| "    "@ + l) =~= shown_lines.take(j as int).map_values(|l: Seq<char>| "    "@ + l).push(line@));
            }
            push_line(out, line);
            j = j + 1;
        }
        assert(shown_lines.take(count as int) =~= shown_lines);
        let all_lines = split_lines(&cs);
        if n > 200 || all_lines.len() > 5 {
            push_line(out, String::from_str("    ..."));
        }
    }
    push_line(out, String::new());
    assert(strings_view(out@) =~= start + entry_report(*e));
}

/// The lines of the plain-text report of the clipboard's entries.
pub fn cli_report(entries: &Vec<ClipboardEntry>) -> (r: Vec<String>)
    ensures
        strings_view(r@) == report_lines(entries@),
{
    let mut out: Vec<String> = Vec::new();
    if entries.len() == 0 {
        push_line(&mut out, String::from_str("(clipboard is empty)"));
        assert(strings_view(out@) =~= report_lines(entries@));
        return out;
    }
    let mut head = String::new();
    crate::text::push_decimal(&mut head, entries.len() as u64);
    head.append(" type(s) on clipboard:\n");
    push_line(&mut out, head);
    let ghost first = strings_view(out@);
    let mut i: usize = 0;
    while i < entries.len()
        invariant
            i <= entries.len(),
            strings_view(out@) == first + entries_report(entries@.take(i as int)),
        decreases entries.len() - i,
    {
        proof {
            assert(entries@.take(i + 1).drop_last() =~= entries@.take(i as int));
        }
        push_entry_report(&mut out, &entries[i]);
        proof {
            assert(entries_report(entries@.take(i + 1)) == entries_report(entries@.take(i as int)) + entry_report(entries@[i as int]));
        }
        i = i + 1;
    }
    assert(entries@.take(entries.len() as int) =~= entries@);
    assert(strings_view(out@) =~= report_lines(entries@));
    out
}

} // verus!
