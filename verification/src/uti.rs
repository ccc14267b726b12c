//! Classification of pasteboard types (Uniform Type Identifiers) as text.

use vstd::prelude::*;
use crate::text::{has_infix, occurs_at, str_contains, str_eq};

verus! {

/// What `str::to_lowercase` returns for a string: its lowercase equivalent as
/// Unicode's `Lowercase` derived property defines it.
pub uninterp spec fn lowercased(s: Seq<char>) -> Seq<char>;

/// The lowercase of an ASCII character: `A`-`Z` become `a`-`z`, any other
/// character stays.
pub open spec fn ascii_lower_char(c: char) -> char {
    if 'A' <= c <= 'Z' {
        ((c as u32) + 32) as char
    } else {
        c
    }
}

/// The uppercase of an ASCII character: `a`-`z` become `A`-`Z`, any other
/// character stays.
pub open spec fn ascii_upper_char(c: char) -> char {
    if 'a' <= c <= 'z' {
        ((c as u32) - 32) as char
    } else {
        c
    }
}

/// `s` with `A`-`Z` mapped to `a`-`z` (what `str::to_ascii_lowercase` gives).
pub open spec fn ascii_lowercase(s: Seq<char>) -> Seq<char> {
    s.map_values(|c: char| ascii_lower_char(c))
}

/// `s` with `a`-`z` mapped to `A`-`Z` (what `str::to_ascii_uppercase` gives).
pub open spec fn ascii_uppercase(s: Seq<char>) -> Seq<char> {
    s.map_values(|c: char| ascii_upper_char(c))
}

/// `str::to_lowercase`. The contract names the result; the full Unicode
/// case mapping is not written out here. Of an ASCII string it states the
/// mapping that Unicode's character data gives ASCII: `A`-`Z` to `a`-`z`,
/// character by character, every other ASCII character unchanged.
#[verifier::external_body]
fn to_lowercase(s: &str) -> (r: String)
    ensures
        r@ == lowercased(s@),
        vstd::utf8::is_ascii_chars(s@) ==> r@ == ascii_lowercase(s@),
{
    s.to_lowercase()
}

/// The fragments whose presence in a lowercased type identifier marks the
/// type as text, and the two identifiers that are text outright.
pub open spec fn text_markers(lower: Seq<char>) -> bool {
    ||| has_infix(lower, "text"@)
    ||| has_infix(lower, "string"@)
    ||| has_infix(lower, "utf8"@)
    ||| has_infix(lower, "utf16"@)
    ||| has_infix(lower, "html"@)
    ||| has_infix(lower, "rtf"@)
    ||| has_infix(lower, "url"@)
    ||| has_infix(lower, "xml"@)
    ||| has_infix(lower, "json"@)
    ||| has_infix(lower, "plist"@)
    ||| has_infix(lower, "source-url"@)
    ||| lower == "public.url"@
    ||| lower == "public.file-url"@
}

/// A type identifier is text when its lowercase form carries a text marker.
pub open spec fn is_text_uti(uti: Seq<char>) -> bool {
    text_markers(lowercased(uti))
}

/// Whether an already lowercased type identifier carries a text marker.
pub fn uti_markers(lower: &str) -> (r: bool)
    ensures
        r == text_markers(lower@),
{
    str_contains(lower, "text") || str_contains(lower, "string") || str_contains(lower, "utf8")
        || str_contains(lower, "utf16") || str_contains(lower, "html") || str_contains(lower, "rtf")
        || str_contains(lower, "url") || str_contains(lower, "xml") || str_contains(lower, "json")
        || str_contains(lower, "plist") || str_contains(lower, "source-url")
        || str_eq(lower, "public.url") || str_eq(lower, "public.file-url")
}

/// How an ASCII type identifier is classified: by the text markers of its
/// ASCII lowercase form (which is its lowercase form).
pub open spec fn is_text_ascii_uti(uti: Seq<char>) -> bool {
    text_markers(ascii_lowercase(uti))
}

/// Whether the pasteboard type `uti` holds text: its lowercase form is
/// checked for the text markers, case-insensitively therefore.
pub fn uti_is_text(uti: &str) -> (r: bool)
    ensures
        r == is_text_uti(uti@),
        vstd::utf8::is_ascii_chars(uti@) ==> r == is_text_ascii_uti(uti@),
{
    let lower = to_lowercase(uti);
    uti_markers(lower.as_str())
}

proof fn lemma_ascii_case_chars(c: char)
    requires
        '\0' <= c <= '\u{7f}',
    ensures
        '\0' <= ascii_upper_char(c) <= '\u{7f}',
        '\0' <= ascii_lower_char(c) <= '\u{7f}',
        ascii_lower_char(ascii_upper_char(c)) == ascii_lower_char(c),
        ascii_lower_char(ascii_lower_char(c)) == ascii_lower_char(c),
{
}

/// For ASCII type identifiers the classification ignores case: the
/// uppercase and the lowercase form of an identifier are text exactly when
/// it is (`uti_is_text` answers `is_text_ascii_uti` on ASCII identifiers).
pub proof fn lemma_ascii_case_insensitive(s: Seq<char>)
    requires
        vstd::utf8::is_ascii_chars(s),
    ensures
        vstd::utf8::is_ascii_chars(ascii_uppercase(s)),
        vstd::utf8::is_ascii_chars(ascii_lowercase(s)),
        is_text_ascii_uti(ascii_uppercase(s)) == is_text_ascii_uti(s),
        is_text_ascii_uti(ascii_lowercase(s)) == is_text_ascii_uti(s),
{
    assert forall|i: int| 0 <= i < s.len() implies {
        &&& '\0' <= #[trigger] ascii_uppercase(s)[i] <= '\u{7f}'
        &&& '\0' <= ascii_lowercase(s)[i] <= '\u{7f}'
        &&& ascii_lower_char(ascii_uppercase(s)[i]) == ascii_lower_char(s[i])
        &&& ascii_lower_char(ascii_lowercase(s)[i]) == ascii_lower_char(s[i])
    } by {
        lemma_ascii_case_chars(s[i]);
    }
    assert(ascii_lowercase(ascii_uppercase(s)) =~= ascii_lowercase(s));
    assert(ascii_lowercase(ascii_lowercase(s)) =~= ascii_lowercase(s));
}

proof fn lemma_infix_extend(a: Seq<char>, l: Seq<char>, b: Seq<char>, m: Seq<char>)
    requires
        has_infix(l, m),
    ensures
        has_infix(a + l + b, m),
{
    let i = choose|i: int| occurs_at(l, m, i);
    let w = a + l + b;
    assert(w.subrange(a.len() + i, a.len() + i + m.len()) =~= l.subrange(i, i + m.len()));
    assert(occurs_at(w, m, a.len() + i));
}

proof fn lemma_markers_extend(a: Seq<char>, l: Seq<char>, b: Seq<char>)
    requires
        text_markers(l),
    ensures
        text_markers(a + l + b),
{
    reveal_strlit("url");
    reveal_strlit("public.url");
    reveal_strlit("public.file-url");
    if l == "public.url"@ {
        assert(l.subrange(7, 10) =~= "url"@);
        assert(occurs_at(l, "url"@, 7));
    } else if l == "public.file-url"@ {
        assert(l.subrange(12, 15) =~= "url"@);
        assert(occurs_at(l, "url"@, 12));
    }
    if has_infix(l, "text"@) { lemma_infix_extend(a, l, b, "text"@); }
    if has_infix(l, "string"@) { lemma_infix_extend(a, l, b, "string"@); }
    if has_infix(l, "utf8"@) { lemma_infix_extend(a, l, b, "utf8"@); }
    if has_infix(l, "utf16"@) { lemma_infix_extend(a, l, b, "utf16"@); }
    if has_infix(l, "html"@) { lemma_infix_extend(a, l, b, "html"@); }
    if has_infix(l, "rtf"@) { lemma_infix_extend(a, l, b, "rtf"@); }
    if has_infix(l, "url"@) { lemma_infix_extend(a, l, b, "url"@); }
    if has_infix(l, "xml"@) { lemma_infix_extend(a, l, b, "xml"@); }
    if has_infix(l, "json"@) { lemma_infix_extend(a, l, b, "json"@); }
    if has_infix(l, "plist"@) { lemma_infix_extend(a, l, b, "plist"@); }
    if has_infix(l, "source-url"@) { lemma_infix_extend(a, l, b, "source-url"@); }
}

/// For ASCII strings, text stays text with more around it: where `s` is a
/// text type identifier, so is `p + s + q` (`uti_is_text` answers
/// `is_text_ascii_uti` on ASCII identifiers).
pub proof fn lemma_text_uti_extends(p: Seq<char>, s: Seq<char>, q: Seq<char>)
    requires
        vstd::utf8::is_ascii_chars(p),
        vstd::utf8::is_ascii_chars(s),
        vstd::utf8::is_ascii_chars(q),
        is_text_ascii_uti(s),
    ensures
        vstd::utf8::is_ascii_chars(p + s + q),
        is_text_ascii_uti(p + s + q),
{
    let w = p + s + q;
    assert(vstd::utf8::is_ascii_chars(w)) by {
        assert forall|i: int| 0 <= i < w.len() implies '\0' <= #[trigger] w[i] <= '\u{7f}' by {
            if i < p.len() {
                assert(w[i] == p[i]);
            } else if i < p.len() + s.len() {
                assert(w[i] == s[i - p.len()]);
            } else {
                assert(w[i] == q[i - p.len() - s.len()]);
            }
        }
    }
    assert(ascii_lowercase(w) =~= ascii_lowercase(p) + ascii_lowercase(s) + ascii_lowercase(q));
    lemma_markers_extend(ascii_lowercase(p), ascii_lowercase(s), ascii_lowercase(q));
}

/// A character that occurs in some text marker: the letters of `text`,
/// `string`, `utf8`, `utf16`, `html`, `rtf`, `url`, `xml`, `json`, `plist`,
/// `source-url`, `public.url` and `public.file-url`.
pub open spec fn marker_char(c: char) -> bool {
    ||| c == 't' || c == 'e' || c == 'x' || c == 's' || c == 'r' || c == 'i'
    ||| c == 'n' || c == 'g' || c == 'u' || c == 'f' || c == '8' || c == '1'
    ||| c == '6' || c == 'h' || c == 'm' || c == 'l' || c == 'j' || c == 'o'
    ||| c == 'p' || c == 'c' || c == '-' || c == 'b' || c == '.'
}

/// Every character of `m` occurs in some text marker.
pub open spec fn all_marker_chars(m: Seq<char>) -> bool {
    forall|i: int| 0 <= i < m.len() ==> marker_char(#[trigger] m[i])
}

/// `l1` and `l2` have the same length and differ only at places where
/// neither holds a character of a text marker.
pub open spec fn same_marker_chars(l1: Seq<char>, l2: Seq<char>) -> bool {
    &&& l1.len() == l2.len()
    &&& forall|i: int| 0 <= i < l1.len() && (marker_char(#[trigger] l1[i]) || marker_char(l2[i])) ==> l1[i] == l2[i]
}

proof fn lemma_infix_transfer(l1: Seq<char>, l2: Seq<char>, m: Seq<char>)
    requires
        same_marker_chars(l1, l2),
        all_marker_chars(m),
        has_infix(l1, m),
    ensures
        has_infix(l2, m),
{
    let i = choose|i: int| occurs_at(l1, m, i);
    assert forall|p: int| 0 <= p < m.len() implies l2[i + p] == m[p] by {
        assert(l1.subrange(i, i + m.len())[p] == l1[i + p]);
        assert(marker_char(m[p]));
    }
    assert(l2.subrange(i, i + m.len()) =~= m);
    assert(occurs_at(l2, m, i));
}

proof fn lemma_markers_are_marker_chars()
    ensures
        all_marker_chars("text"@),
        all_marker_chars("string"@),
        all_marker_chars("utf8"@),
        all_marker_chars("utf16"@),
        all_marker_chars("html"@),
        all_marker_chars("rtf"@),
        all_marker_chars("url"@),
        all_marker_chars("xml"@),
        all_marker_chars("json"@),
        all_marker_chars("plist"@),
        all_marker_chars("source-url"@),
        all_marker_chars("public.url"@),
        all_marker_chars("public.file-url"@),
{
    reveal_strlit("text");
    reveal_strlit("string");
    reveal_strlit("utf8");
    reveal_strlit("utf16");
    reveal_strlit("html");
    reveal_strlit("rtf");
    reveal_strlit("url");
    reveal_strlit("xml");
    reveal_strlit("json");
    reveal_strlit("plist");
    reveal_strlit("source-url");
    reveal_strlit("public.url");
    reveal_strlit("public.file-url");
}

proof fn lemma_markers_transfer(l1: Seq<char>, l2: Seq<char>)
    requires
        same_marker_chars(l1, l2),
        text_markers(l1),
    ensures
        text_markers(l2),
{
    lemma_markers_are_marker_chars();
    if has_infix(l1, "text"@) { lemma_infix_transfer(l1, l2, "text"@); }
    if has_infix(l1, "string"@) { lemma_infix_transfer(l1, l2, "string"@); }
    if has_infix(l1, "utf8"@) { lemma_infix_transfer(l1, l2, "utf8"@); }
    if has_infix(l1, "utf16"@) { lemma_infix_transfer(l1, l2, "utf16"@); }
    if has_infix(l1, "html"@) { lemma_infix_transfer(l1, l2, "html"@); }
    if has_infix(l1, "rtf"@) { lemma_infix_transfer(l1, l2, "rtf"@); }
    if has_infix(l1, "url"@) { lemma_infix_transfer(l1, l2, "url"@); }
    if has_infix(l1, "xml"@) { lemma_infix_transfer(l1, l2, "xml"@); }
    if has_infix(l1, "json"@) { lemma_infix_transfer(l1, l2, "json"@); }
    if has_infix(l1, "plist"@) { lemma_infix_transfer(l1, l2, "plist"@); }
    if has_infix(l1, "source-url"@) { lemma_infix_transfer(l1, l2, "source-url"@); }
    if l1 == "public.url"@ {
        assert forall|i: int| 0 <= i < l1.len() implies l2[i] == l1[i] by {
            assert(marker_char(l1[i]));
        }
        assert(l2 =~= l1);
    }
    if l1 == "public.file-url"@ {
        assert forall|i: int| 0 <= i < l1.len() implies l2[i] == l1[i] by {
            assert(marker_char(l1[i]));
        }
        assert(l2 =~= l1);
    }
}

/// Only the characters of the text markers decide: two lowercase type
/// identifiers that differ only at places where neither holds such a
/// character (such as `w` against `z`, or `a` against `k`) are both text or
/// both not. So no marker made of other characters, and no identifier as a
/// whole, is taken for text.
pub proof fn lemma_only_marker_chars_decide(l1: Seq<char>, l2: Seq<char>)
    requires
        same_marker_chars(l1, l2),
    ensures
        text_markers(l1) == text_markers(l2),
{
    assert(same_marker_chars(l2, l1));
    if text_markers(l1) {
        lemma_markers_transfer(l1, l2);
    }
    if text_markers(l2) {
        lemma_markers_transfer(l2, l1);
    }
}

/// A lowercase type identifier without any of the letters `t`, `l` and `n`
/// is not text: every text marker holds one of them.
pub proof fn lemma_text_needs_t_l_or_n(l: Seq<char>)
    requires
        forall|i: int| 0 <= i < l.len() ==> #[trigger] l[i] != 't' && l[i] != 'l' && l[i] != 'n',
    ensures
        !text_markers(l),
{
    reveal_strlit("text");
    reveal_strlit("string");
    reveal_strlit("utf8");
    reveal_strlit("utf16");
    reveal_strlit("html");
    reveal_strlit("rtf");
    reveal_strlit("url");
    reveal_strlit("xml");
    reveal_strlit("json");
    reveal_strlit("plist");
    reveal_strlit("source-url");
    reveal_strlit("public.url");
    reveal_strlit("public.file-url");
    assert forall|m: Seq<char>, k: int| 0 <= k < m.len() && (m[k] == 't' || m[k] == 'l' || m[k] == 'n') implies !has_infix(l, m) by {
        if has_infix(l, m) {
            let i = choose|i: int| occurs_at(l, m, i);
            assert(l.subrange(i, i + m.len())[k] == l[i + k]);
        }
    }
    assert("text"@[0] == 't');
    assert("string"@[1] == 't');
    assert("utf8"@[1] == 't');
    assert("utf16"@[1] == 't');
    assert("html"@[1] == 't');
    assert("rtf"@[1] == 't');
    assert("url"@[2] == 'l');
    assert("xml"@[2] == 'l');
    assert("json"@[3] == 'n');
    assert("plist"@[1] == 'l');
    assert("source-url"@[9] == 'l');
    assert("public.url"@[3] == 'l');
    if l == "public.url"@ {
        assert(l[3] == 'l');
    }
    assert("public.file-url"@[3] == 'l');
    if l == "public.file-url"@ {
        assert(l[3] == 'l');
    }
}

} // verus!
