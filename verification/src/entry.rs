//! The entries of a clipboard read: one per pasteboard type that yields
//! either text or data.

use vstd::prelude::*;
use base64::Engine;
use crate::uti::{is_text_uti, uti_is_text};

verus! {

/// One type on the clipboard together with its content.
pub struct ClipboardEntry {
    /// The type identifier, as the pasteboard names it.
    pub uti: String,
    /// The text for a text entry; the standard Base64 encoding of the bytes otherwise.
    pub data: String,
    /// Whether the content was read as text.
    pub is_text: bool,
    /// The size in bytes: of the text's UTF-8 encoding, or of the raw data.
    pub size: usize,
}

/// What the pasteboard gave for one of its types.
pub struct PasteboardItem {
    /// The type identifier.
    pub uti: String,
    /// The string the pasteboard gives for the type. It is consulted only
    /// for a text type, so it need only be read for one.
    pub text: Option<String>,
    /// The bytes of the data object the pasteboard gives for the type, or
    /// `None` where it gives none (bytes it cannot point to count as none).
    /// It is consulted only where no text entry results.
    pub data: Option<Vec<u8>>,
}

/// What `STANDARD.encode` of the `base64` crate returns for `bytes`: the
/// standard alphabet, padded with `=`.
pub uninterp spec fn base64_standard(bytes: Seq<u8>) -> Seq<char>;

/// The length of the padded Base64 encoding of `n` bytes: four characters
/// for each started group of three.
pub open spec fn base64_len(n: nat) -> nat {
    ((n + 2) / 3 * 4) as nat
}

/// A character of the standard Base64 alphabet (`A-Z`, `a-z`, `0-9`, `+`,
/// `/`) or the padding `=`.
pub open spec fn is_base64_char(c: char) -> bool {
    ||| 'A' <= c <= 'Z'
    ||| 'a' <= c <= 'z'
    ||| '0' <= c <= '9'
    ||| c == '+'
    ||| c == '/'
    ||| c == '='
}

/// Every character of `s` belongs to the standard Base64 alphabet or is `=`.
pub open spec fn is_base64_text(s: Seq<char>) -> bool {
    forall|i: int| 0 <= i < s.len() ==> is_base64_char(#[trigger] s[i])
}

/// `base64::engine::general_purpose::STANDARD.encode` (base64 0.22). The
/// contract names the encoding, gives its length as the crate's
/// `encoded_len` computes it, and states that it is written with the
/// `STANDARD` alphabet and the `=` padding byte; `requires` leaves out the
/// lengths for which that computation overflows and `encode` panics.
#[verifier::external_body]
fn encode_base64(bytes: &[u8]) -> (r: String)
    requires
        base64_len(bytes@.len()) <= usize::MAX,
    ensures
        r@ == base64_standard(bytes@),
        r@.len() == base64_len(bytes@.len()),
        is_base64_text(r@),
{
    base64::engine::general_purpose::STANDARD.encode(bytes)
}

/// The number of bytes of the UTF-8 encoding of `s` (what `str::len` returns).
pub open spec fn utf8_len(s: Seq<char>) -> nat {
    vstd::utf8::encode_utf8(s).len()
}

/// The item's text is taken: its type is a text type and the pasteboard gave a string.
pub open spec fn takes_text(item: PasteboardItem) -> bool {
    is_text_uti(item.uti@) && item.text is Some
}

/// The item yields an entry: as text, or else from its data object.
pub open spec fn yields_entry(item: PasteboardItem) -> bool {
    takes_text(item) || item.data is Some
}

/// The data of an item that can be encoded without overflow.
pub open spec fn encodable(item: PasteboardItem) -> bool {
    item.data matches Some(b) ==> base64_len(b@.len()) <= usize::MAX
}

/// `e` is the entry that `item` yields.
pub open spec fn entry_describes(e: ClipboardEntry, item: PasteboardItem) -> bool {
    &&& e.uti@ == item.uti@
    &&& if takes_text(item) {
        &&& e.is_text
        &&& e.data@ == item.text->0@
        &&& e.size == utf8_len(item.text->0@) as usize
    } else {
        &&& !e.is_text
        &&& item.data is Some
        &&& e.data@.len() == base64_len(e.size as nat)
        &&& is_base64_text(e.data@)
        &&& if item.data->0@.len() > 0 {
            &&& e.data@ == base64_standard(item.data->0@)
            &&& e.size == item.data->0@.len()
        } else {
            &&& e.data@.len() == 0
            &&& e.size == 0
        }
    }
}

/// The entry that one pasteboard item yields, if any: the text for a text
/// type with a string; otherwise the Base64 of its data object, empty with
/// size 0 where the data is empty; nothing where there is no data object.
pub fn entry_for_item(item: &PasteboardItem) -> (r: Option<ClipboardEntry>)
    requires
        encodable(*item),
    ensures
        r is Some <==> yields_entry(*item),
        r matches Some(e) ==> entry_describes(e, *item),
{
    let is_text = uti_is_text(item.uti.as_str());
    if is_text {
        if let Some(text) = &item.text {
            return Some(
                ClipboardEntry {
                    size: text.as_str().len(),
                    data: text.clone(),
                    is_text: true,
                    uti: item.uti.clone(),
                },
            );
        }
    }
    match &item.data {
        Some(bytes) => {
            if bytes.len() > 0 {
                Some(
                    ClipboardEntry {
                        uti: item.uti.clone(),
                        size: bytes.len(),
                        data: encode_base64(bytes.as_slice()),
                        is_text: false,
                    },
                )
            } else {
                Some(
                    ClipboardEntry {
                        uti: item.uti.clone(),
                        size: 0,
                        data: String::new(),
                        is_text: false,
                    },
                )
            }
        },
        None => None,
    }
}

/// The shape of an entry: a text entry's size is the UTF-8 length of its
/// text; a binary entry's data is Base64 text, four characters for each
/// started group of three bytes of its size.
pub open spec fn entry_well_formed(e: ClipboardEntry) -> bool {
    &&& e.is_text ==> e.size == utf8_len(e.data@) as usize
    &&& !e.is_text ==> e.data@.len() == base64_len(e.size as nat) && is_base64_text(e.data@)
}

/// Every entry that an item yields has the shape of an entry: text with its
/// UTF-8 size, or Base64 of the length that its size gives.
pub proof fn lemma_entry_well_formed(e: ClipboardEntry, item: PasteboardItem)
    requires
        entry_describes(e, item),
    ensures
        entry_well_formed(e),
{
}

/// The items that yield an entry, in order.
pub open spec fn yielding(items: Seq<PasteboardItem>) -> Seq<PasteboardItem> {
    items.filter(|item: PasteboardItem| yields_entry(item))
}

/// The entries of a clipboard read: for each item that yields one, in the
/// pasteboard's order, the entry it yields.
pub fn read_clipboard_entries(items: &Vec<PasteboardItem>) -> (r: Vec<ClipboardEntry>)
    requires
        forall|i: int| 0 <= i < items.len() ==> encodable(#[trigger] items@[i]),
    ensures
        r.len() == yielding(items@).len(),
        forall|k: int| 0 <= k < r.len() ==> entry_describes(#[trigger] r@[k], yielding(items@)[k]),
        forall|k: int| 0 <= k < r.len() ==> entry_well_formed(#[trigger] r@[k]),
{
    let mut entries: Vec<ClipboardEntry> = Vec::new();
    let mut i: usize = 0;
    while i < items.len()
        invariant
            i <= items.len(),
            forall|j: int| 0 <= j < items.len() ==> encodable(#[trigger] items@[j]),
            entries.len() == yielding(items@.take(i as int)).len(),
            forall|k: int| 0 <= k < entries.len() ==> entry_describes(#[trigger] entries@[k], yielding(items@.take(i as int))[k]),
        decreases items.len() - i,
    {
        let ghost before = items@.take(i as int);
        let ghost after = items@.take(i + 1);
        proof {
            assert(after.drop_last() =~= before);
            assert(after.last() == items@[i as int]);
            reveal_with_fuel(Seq::filter, 1);
        }
        let e = entry_for_item(&items[i]);
        match e {
            Some(e) => {
                entries.push(e);
            },
            None => {},
        }
        i = i + 1;
    }
    assert(items@.take(items.len() as int) =~= items@);
    assert forall|k: int| 0 <= k < entries.len() implies entry_well_formed(#[trigger] entries@[k]) by {
        lemma_entry_well_formed(entries@[k], yielding(items@)[k]);
    }
    entries
}

} // verus!
