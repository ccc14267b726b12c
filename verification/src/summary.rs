//! The one-line summary of the clipboard shown at the top of the tray menu.

use vstd::prelude::*;
use crate::entry::ClipboardEntry;
use crate::text::{chars_of, decimal, has_infix, push_char, push_decimal, str_contains};

verus! {

/// How a character of a preview is shown on one line: a line feed becomes a
/// space and a carriage return is dropped.
pub open spec fn one_line_char(c: char) -> Seq<char> {
    if c == '\n' {
        seq![' ']
    } else if c == '\r' {
        Seq::empty()
    } else {
        seq![c]
    }
}

/// `s` on one line: each character shown as `one_line_char` shows it.
pub open spec fn one_line(s: Seq<char>) -> Seq<char>
    decreases s.len(),
{
    if s.len() == 0 {
        Seq::empty()
    } else {
        one_line(s.drop_last()) + one_line_char(s.last())
    }
}

/// The first 60 characters of `data` followed by `...` where it is longer;
/// `data` itself otherwise.
pub open spec fn clip_preview(data: Seq<char>) -> Seq<char> {
    if data.len() > 60 {
        data.take(60) + "..."@
    } else {
        data
    }
}

/// The preview of a text entry's data in the summary.
pub open spec fn text_preview(data: Seq<char>) -> Seq<char> {
    one_line(clip_preview(data))
}

/// `i` is the index of the first text entry.
pub open spec fn is_first_text(es: Seq<ClipboardEntry>, i: int) -> bool {
    &&& 0 <= i < es.len()
    &&& es[i].is_text
    &&& forall|j: int| 0 <= j < i ==> !(#[trigger] es[j]).is_text
}

/// The entry's type identifier names an image.
pub open spec fn is_image(e: ClipboardEntry) -> bool {
    has_infix(e.uti@, "image"@)
}

/// `i` is the index of the first image entry.
pub open spec fn is_first_image(es: Seq<ClipboardEntry>, i: int) -> bool {
    &&& 0 <= i < es.len()
    &&& is_image(es[i])
    &&& forall|j: int| 0 <= j < i ==> !is_image(#[trigger] es[j])
}

/// The summary of the entries of a clipboard read: `(empty)` where there
/// are none; else the one-line preview of the first text entry; else, where
/// an entry is an image, the size of the first image; else the number of types.
pub open spec fn summary_text(es: Seq<ClipboardEntry>) -> Seq<char> {
    if es.len() == 0 {
        "(empty)"@
    } else if exists|i: int| is_first_text(es, i) {
        text_preview(es[choose|i: int| is_first_text(es, i)].data@)
    } else if exists|i: int| is_first_image(es, i) {
        "[Image — "@ + decimal(es[choose|i: int| is_first_image(es, i)].size as nat) + " bytes]"@
    } else {
        "["@ + decimal(es.len()) + " types on clipboard]"@
    }
}

/// Showing a concatenation on one line shows each part on one line.
pub proof fn lemma_one_line_append(a: Seq<char>, b: Seq<char>)
    ensures
        one_line(a + b) == one_line(a) + one_line(b),
    decreases b.len(),
{
    if b.len() == 0 {
        assert(a + b =~= a);
        assert(one_line(a) + one_line(b) =~= one_line(a));
    } else {
        lemma_one_line_append(a, b.drop_last());
        assert((a + b).drop_last() =~= a + b.drop_last());
        assert((a + b).last() == b.last());
        assert(one_line(a + b) =~= one_line(a) + one_line(b));
    }
}

/// The one-line preview of a text entry's data.
fn preview_of(data: &str) -> (r: String)
    ensures
        r@ == text_preview(data@),
{
    let cs = chars_of(data);
    let n = cs.len();
    let limit: usize = if n > 60 { 60 } else { n };
    let mut out = String::new();
    let mut i: usize = 0;
    while i < limit
        invariant
            cs@ == data@,
            n == cs.len(),
            limit <= n,
            i <= limit,
            out@ == one_line(cs@.take(i as int)),
        decreases limit - i,
    {
        let c = cs[i];
        proof {
            assert(cs@.take(i + 1).drop_last() =~= cs@.take(i as int));
        }
        if c == '\n' {
            push_char(&mut out, ' ');
        } else if c != '\r' {
            push_char(&mut out, c);
        }
        assert(out@ =~= one_line(cs@.take(i + 1)));
        i = i + 1;
    }
    if n > 60 {
        out.append("...");
        proof {
            reveal_strlit("...");
            lemma_one_line_append(cs@.take(60), "..."@);
            reveal_with_fuel(one_line, 4);
            assert("..."@.drop_last().drop_last().drop_last() =~= Seq::<char>::empty());
            assert(one_line("..."@) =~= "..."@);
        }
    } else {
        assert(cs@.take(n as int) =~= cs@);
    }
    out
}

/// The one-line summary of the clipboard's entries shown at the top of the
/// tray menu.
pub fn get_clipboard_summary(entries: &Vec<ClipboardEntry>) -> (r: String)
    ensures
        r@ == summary_text(entries@),
{
    if entries.len() == 0 {
        return String::from_str("(empty)");
    }
    let mut i: usize = 0;
    while i < entries.len()
        invariant
            i <= entries.len(),
            forall|j: int| 0 <= j < i ==> !(#[trigger] entries@[j]).is_text,
        decreases entries.len() - i,
    {
        if entries[i].is_text {
            proof {
                assert(is_first_text(entries@, i as int));
                assert forall|k: int| is_first_text(entries@, k) implies k == i by {
                    if k < i {
                        assert(!entries@[k].is_text);
                    } else if k > i {
                        assert(!entries@[i as int].is_text);
                    }
                }
            }
            return preview_of(entries[i].data.as_str());
        }
        i = i + 1;
    }
    assert(!exists|k: int| is_first_text(entries@, k));
    let mut i: usize = 0;
    while i < entries.len()
        invariant
            i <= entries.len(),
            entries.len() > 0,
            !exists|k: int| is_first_text(entries@, k),
            forall|j: int| 0 <= j < i ==> !is_image(#[trigger] entries@[j]),
        decreases entries.len() - i,
    {
        if str_contains(entries[i].uti.as_str(), "image") {
            proof {
                assert(is_first_image(entries@, i as int));
                assert forall|k: int| is_first_image(entries@, k) implies k == i by {
                    if k < i {
                        assert(!is_image(entries@[k]));
                    } else if k > i {
                        assert(!is_image(entries@[i as int]));
                    }
                }
            }
            let size: u64 = entries[i].size as u64;
            assert(size as nat == entries@[i as int].size as nat);
            let mut r = String::from_str("[Image — ");
            push_decimal(&mut r, size);
            r.append(" bytes]");
            assert(r@ =~= summary_text(entries@));
            return r;
        }
        i = i + 1;
    }
    assert(!exists|k: int| is_first_image(entries@, k));
    let mut r = String::from_str("[");
    push_decimal(&mut r, entries.len() as u64);
    r.append(" types on clipboard]");
    r
}

/// `s` holds neither a line feed nor a carriage return.
pub open spec fn single_line(s: Seq<char>) -> bool {
    forall|i: int| 0 <= i < s.len() ==> s[i] != '\n' && s[i] != '\r'
}

proof fn lemma_one_line_is_single_line(s: Seq<char>)
    ensures
        single_line(one_line(s)),
        one_line(s).len() <= s.len(),
    decreases s.len(),
{
    if s.len() > 0 {
        lemma_one_line_is_single_line(s.drop_last());
        let a = one_line(s.drop_last());
        let b = one_line_char(s.last());
        assert forall|i: int| 0 <= i < (a + b).len() implies (a + b)[i] != '\n' && (a + b)[i] != '\r' by {
            if i >= a.len() {
                assert((a + b)[i] == b[i - a.len()]);
            }
        }
    }
}

proof fn lemma_decimal_is_single_line(n: nat)
    ensures
        single_line(decimal(n)),
    decreases n,
{
    if n >= 10 {
        lemma_decimal_is_single_line(n / 10);
    }
    assert(single_line(decimal(n)));
}

proof fn lemma_concat_single_line(a: Seq<char>, b: Seq<char>)
    requires
        single_line(a),
        single_line(b),
    ensures
        single_line(a + b),
{
    assert forall|i: int| 0 <= i < (a + b).len() implies (a + b)[i] != '\n' && (a + b)[i] != '\r' by {
        if i >= a.len() {
            assert((a + b)[i] == b[i - a.len()]);
        } else {
            assert((a + b)[i] == a[i]);
        }
    }
}

/// The summary fits on one line: whatever the entries hold, it has no line
/// feed and no carriage return; and a text preview is at most 63 characters
/// long (60 of the text and `...`).
pub proof fn lemma_summary_is_one_line(es: Seq<ClipboardEntry>)
    ensures
        single_line(summary_text(es)),
        (exists|i: int| is_first_text(es, i)) ==> summary_text(es).len() <= 63,
{
    reveal_strlit("(empty)");
    reveal_strlit("...");
    reveal_strlit("[Image — ");
    reveal_strlit(" bytes]");
    reveal_strlit("[");
    reveal_strlit(" types on clipboard]");
    if es.len() == 0 {
        assert(single_line("(empty)"@));
    } else if exists|i: int| is_first_text(es, i) {
        let d = es[choose|i: int| is_first_text(es, i)].data@;
        lemma_one_line_is_single_line(clip_preview(d));
    } else if exists|i: int| is_first_image(es, i) {
        let size = es[choose|i: int| is_first_image(es, i)].size as nat;
        lemma_decimal_is_single_line(size);
        assert(single_line("[Image — "@));
        assert(single_line(" bytes]"@));
        lemma_concat_single_line("[Image — "@, decimal(size));
        lemma_concat_single_line("[Image — "@ + decimal(size), " bytes]"@);
    } else {
        lemma_decimal_is_single_line(es.len());
        assert(single_line("["@));
        assert(single_line(" types on clipboard]"@));
        lemma_concat_single_line("["@, decimal(es.len()));
        lemma_concat_single_line("["@ + decimal(es.len()), " types on clipboard]"@);
    }
}

/// No entry is text and none names an image.
pub open spec fn only_other_types(es: Seq<ClipboardEntry>) -> bool {
    forall|i: int| 0 <= i < es.len() ==> !(#[trigger] es[i]).is_text && !is_image(es[i])
}

/// Where no entry is text and none names an image, the summary counts all
/// the entries, whatever their data and sizes: `[n types on clipboard]` with
/// `n` the number of entries.
pub proof fn lemma_summary_counts_every_entry(es: Seq<ClipboardEntry>)
    requires
        es.len() > 0,
        only_other_types(es),
    ensures
        summary_text(es) == "["@ + decimal(es.len()) + " types on clipboard]"@,
{
    assert(!exists|i: int| is_first_text(es, i));
    assert(!exists|i: int| is_first_image(es, i));
}

/// Two clipboards of other types only have the same summary exactly when
/// they hold the same number of entries: neither the data nor the sizes of
/// the entries change it, and every entry counts.
pub proof fn lemma_summary_depends_on_count_only(es1: Seq<ClipboardEntry>, es2: Seq<ClipboardEntry>)
    requires
        es1.len() > 0,
        es2.len() > 0,
        only_other_types(es1),
        only_other_types(es2),
    ensures
        (summary_text(es1) == summary_text(es2)) <==> es1.len() == es2.len(),
{
    lemma_summary_counts_every_entry(es1);
    lemma_summary_counts_every_entry(es2);
    let d1 = decimal(es1.len());
    let d2 = decimal(es2.len());
    let tail = " types on clipboard]"@;
    if summary_text(es1) == summary_text(es2) {
        reveal_strlit("[");
        let w1 = "["@ + d1 + tail;
        let w2 = "["@ + d2 + tail;
        assert(w1.len() == w2.len());
        assert(d1.len() == d2.len());
        assert(w1.subrange(1, 1 + d1.len() as int) =~= d1);
        assert(w2.subrange(1, 1 + d2.len() as int) =~= d2);
        crate::tray::lemma_decimal_injective(es1.len(), es2.len());
    }
}

} // verus!
