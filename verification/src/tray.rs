//! The tray menu: the elements it lists for a clipboard read, and what a
//! click on one of them asks for.

use vstd::prelude::*;
use crate::entry::ClipboardEntry;
use crate::text::{decimal, digit_char, has_prefix, push_char, push_decimal, str_starts_with};

verus! {

/// Entries listed one by one in the menu; the rest are counted.
pub const MAX_LISTED_ENTRIES: usize = 10;

/// A clickable or informative line of the menu.
pub struct MenuItem {
    pub id: String,
    pub label: String,
    pub enabled: bool,
}

/// One element of the tray menu, from top to bottom.
pub enum MenuElement {
    Item(MenuItem),
    Separator,
}

/// A menu element as plain text.
pub enum MenuElementView {
    Item { id: Seq<char>, label: Seq<char>, enabled: bool },
    Separator,
}

impl View for MenuElement {
    type V = MenuElementView;

    open spec fn view(&self) -> MenuElementView {
        match self {
            MenuElement::Item(item) => MenuElementView::Item {
                id: item.id@,
                label: item.label@,
                enabled: item.enabled,
            },
            MenuElement::Separator => MenuElementView::Separator,
        }
    }
}

/// The elements of a menu as plain text.
pub open spec fn elements_view(es: Seq<MenuElement>) -> Seq<MenuElementView> {
    es.map_values(|e: MenuElement| e@)
}

/// An item of the spec layout.
pub open spec fn item_view(id: Seq<char>, label: Seq<char>, enabled: bool) -> MenuElementView {
    MenuElementView::Item { id, label, enabled }
}

/// An item identifier: a prefix followed by the menu's build counter.
pub open spec fn counted_id(prefix: Seq<char>, n: nat) -> Seq<char> {
    prefix + decimal(n)
}

/// The identifier of the `i`-th listed entry of the menu built `n`-th.
pub open spec fn entry_id(n: nat, i: nat) -> Seq<char> {
    "entry_"@ + decimal(n) + "_"@ + decimal(i)
}

/// The label of a listed entry: its type, its size, and whether it is text.
pub open spec fn entry_label(e: ClipboardEntry) -> Seq<char> {
    "  "@ + e.uti@ + " — "@ + decimal(e.size as nat) + (if e.is_text {
        " bytes (text)"@
    } else {
        " bytes"@
    })
}

/// The number of entries listed one by one.
pub open spec fn listed_count(len: nat) -> nat {
    if len > 10 {
        10
    } else {
        len
    }
}

/// The line that counts the entries beyond the listed ones, where there are any.
pub open spec fn more_line(len: nat, n: nat) -> Seq<MenuElementView> {
    if len > 10 {
        seq![item_view(counted_id("more_"@, n), "  ...and "@ + decimal((len - 10) as nat) + " more"@, false)]
    } else {
        Seq::empty()
    }
}

/// The tray menu built `n`-th, for a clipboard read with entries `es` and
/// summary `summary`: a header with the summary, the number of types, up to
/// ten entries, a line counting the rest, and the three actions.
pub open spec fn tray_layout(es: Seq<ClipboardEntry>, summary: Seq<char>, n: nat) -> Seq<MenuElementView> {
    seq![
        item_view(counted_id("header_"@, n), "📋 "@ + summary, false),
        MenuElementView::Separator,
        item_view(counted_id("types_"@, n), decimal(es.len()) + " type(s) on clipboard"@, false),
    ]
        + Seq::new(listed_count(es.len()), |i: int| item_view(entry_id(n, i as nat), entry_label(es[i]), false))
        + more_line(es.len(), n)
        + seq![
        MenuElementView::Separator,
        item_view(counted_id("openclip_"@, n), "Open with Current Clipboard"@, true),
        item_view(counted_id("show_"@, n), "Open Clipboard Investigator"@, true),
        item_view(counted_id("quit_"@, n), "Quit"@, true),
    ]
}

/// Viewing a menu after a push views the pushed element last.
proof fn lemma_view_push(s: Seq<MenuElement>, e: MenuElement)
    ensures
        elements_view(s.push(e)) == elements_view(s).push(e@),
{
    assert(elements_view(s.push(e)) =~= elements_view(s).push(e@));
}

/// `prefix` followed by the decimal of `n`.
fn counted(prefix: &str, n: u64) -> (r: String)
    ensures
        r@ == counted_id(prefix@, n as nat),
{
    let mut r = String::from_str(prefix);
    push_decimal(&mut r, n);
    r
}

fn item(id: String, label: String, enabled: bool) -> (r: MenuElement)
    ensures
        r@ == item_view(id@, label@, enabled),
{
    MenuElement::Item(MenuItem { id, label, enabled })
}

/// The label of a listed entry.
fn entry_label_of(e: &ClipboardEntry) -> (r: String)
    ensures
        r@ == entry_label(*e),
{
    let mut r = String::from_str("  ");
    r.append(e.uti.as_str());
    r.append(" — ");
    push_decimal(&mut r, e.size as u64);
    if e.is_text {
        r.append(" bytes (text)");
    } else {
        r.append(" bytes");
    }
    r
}

/// The elements of the tray menu built `n`-th for a clipboard read with
/// entries `entries` and summary `summary`.
pub fn tray_menu_layout(entries: &Vec<ClipboardEntry>, summary: &str, n: u64) -> (r: Vec<MenuElement>)
    ensures
        elements_view(r@) == tray_layout(entries@, summary@, n as nat),
{
    let mut r: Vec<MenuElement> = Vec::new();
    let mut header = String::from_str("📋 ");
    header.append(summary);
    let e0 = item(counted("header_", n), header, false);
    let e2_label = {
        let mut types = String::new();
        push_decimal(&mut types, entries.len() as u64);
        types.append(" type(s) on clipboard");
        types
    };
    let e2 = item(counted("types_", n), e2_label, false);
    let ghost v0 = e0@;
    let ghost v2 = e2@;
    r.push(e0);
    r.push(MenuElement::Separator);
    r.push(e2);
    proof {
        lemma_view_push(Seq::empty(), r@[0]);
        lemma_view_push(r@.take(1), MenuElement::Separator);
        lemma_view_push(r@.take(2), r@[2]);
        assert(r@.take(1) =~= Seq::<MenuElement>::empty().push(r@[0]));
        assert(r@.take(2) =~= r@.take(1).push(MenuElement::Separator));
        assert(r@ =~= r@.take(2).push(r@[2]));
    }
    let ghost head = elements_view(r@);
    assert(head =~= seq![v0, MenuElementView::Separator, v2]);
    let shown: usize = if entries.len() > MAX_LISTED_ENTRIES { MAX_LISTED_ENTRIES } else { entries.len() };
    let mut i: usize = 0;
    while i < shown
        invariant
            shown == listed_count(entries.len() as nat),
            i <= shown,
            shown <= entries.len(),
            elements_view(r@) =~= head + Seq::new(i as nat, |k: int| item_view(entry_id(n as nat, k as nat), entry_label(entries@[k]), false)),
        decreases shown - i,
    {
        let mut id = counted("entry_", n);
        push_char(&mut id, '_');
        push_decimal(&mut id, i as u64);
        proof {
            reveal_strlit("_");
            assert(id@ =~= entry_id(n as nat, i as nat));
        }
        let e = item(id, entry_label_of(&entries[i]), false);
        let ghost before = r@;
        r.push(e);
        proof {
            lemma_view_push(before, e);
        }
        i = i + 1;
    }
    let ghost listed = elements_view(r@);
    if entries.len() > MAX_LISTED_ENTRIES {
        let mut more = String::from_str("  ...and ");
        push_decimal(&mut more, (entries.len() - MAX_LISTED_ENTRIES) as u64);
        more.append(" more");
        let e = item(counted("more_", n), more, false);
        let ghost before = r@;
        r.push(e);
        proof {
            lemma_view_push(before, e);
        }
    }
    assert(elements_view(r@) =~= listed + more_line(entries.len() as nat, n as nat));
    let ghost with_more = elements_view(r@);
    let a1 = item(counted("openclip_", n), String::from_str("Open with Current Clipboard"), true);
    let a2 = item(counted("show_", n), String::from_str("Open Clipboard Investigator"), true);
    let a3 = item(counted("quit_", n), String::from_str("Quit"), true);
    let ghost (w1, w2, w3) = (a1@, a2@, a3@);
    let ghost r0 = r@;
    r.push(MenuElement::Separator);
    let ghost r1 = r@;
    r.push(a1);
    let ghost r2 = r@;
    r.push(a2);
    let ghost r3 = r@;
    r.push(a3);
    proof {
        lemma_view_push(r0, MenuElement::Separator);
        lemma_view_push(r1, a1);
        lemma_view_push(r2, a2);
        lemma_view_push(r3, a3);
    }
    assert(elements_view(r@) =~= with_more + seq![MenuElementView::Separator, w1, w2, w3]);
    assert(elements_view(r@) =~= tray_layout(entries@, summary@, n as nat));
    r
}

/// What a click on a menu item asks for.
#[derive(PartialEq, Eq, Structural, Debug, Clone, Copy)]
pub enum MenuAction {
    /// Show the window and have it read the clipboard now.
    OpenWithClipboard,
    /// Show the window.
    Show,
    /// Quit the application.
    Quit,
    /// Nothing: the item only informs.
    Nothing,
}

/// The action of the item with identifier `id`, decided by its prefix.
pub open spec fn action_for(id: Seq<char>) -> MenuAction {
    if has_prefix(id, "openclip"@) {
        MenuAction::OpenWithClipboard
    } else if has_prefix(id, "show"@) {
        MenuAction::Show
    } else if has_prefix(id, "quit"@) {
        MenuAction::Quit
    } else {
        MenuAction::Nothing
    }
}

/// The action that a click on the menu item with identifier `id` asks for.
pub fn menu_action(id: &str) -> (r: MenuAction)
    ensures
        r == action_for(id@),
{
    if str_starts_with(id, "openclip") {
        MenuAction::OpenWithClipboard
    } else if str_starts_with(id, "show") {
        MenuAction::Show
    } else if str_starts_with(id, "quit") {
        MenuAction::Quit
    } else {
        MenuAction::Nothing
    }
}

/// The identifier of a menu element, where it is an item.
pub open spec fn element_id(e: MenuElementView) -> Option<Seq<char>> {
    match e {
        MenuElementView::Item { id, .. } => Some(id),
        MenuElementView::Separator => None,
    }
}

proof fn lemma_first_char_rules_out(s: Seq<char>, p: Seq<char>)
    requires
        s.len() > 0,
        p.len() > 0,
        s[0] != p[0],
    ensures
        !has_prefix(s, p),
{
    if has_prefix(s, p) {
        assert(s.subrange(0, p.len() as int)[0] == p[0]);
    }
}

proof fn lemma_prefix_of_counted(prefix: Seq<char>, p: Seq<char>, n: nat)
    requires
        p.len() <= prefix.len(),
        prefix.subrange(0, p.len() as int) == p,
    ensures
        has_prefix(counted_id(prefix, n), p),
{
    assert(counted_id(prefix, n).subrange(0, p.len() as int) =~= prefix.subrange(0, p.len() as int));
}

/// Nothing but the three action items of a tray menu asks for anything: a
/// click on the last three items opens the window with the clipboard, shows
/// the window, and quits, in that order, and a click on any other item does nothing.
pub proof fn lemma_tray_layout_actions(es: Seq<ClipboardEntry>, summary: Seq<char>, n: nat)
    ensures
        ({
            let l = tray_layout(es, summary, n);
            &&& l.len() >= 7
            &&& element_id(l[l.len() - 3]) matches Some(id) && action_for(id) == MenuAction::OpenWithClipboard
            &&& element_id(l[l.len() - 2]) matches Some(id) && action_for(id) == MenuAction::Show
            &&& element_id(l[l.len() - 1]) matches Some(id) && action_for(id) == MenuAction::Quit
            &&& forall|k: int| 0 <= k < l.len() - 3 ==> (element_id(#[trigger] l[k]) matches Some(id) ==> action_for(id) == MenuAction::Nothing)
        }),
{
    reveal_strlit("openclip");
    reveal_strlit("show");
    reveal_strlit("quit");
    reveal_strlit("openclip_");
    reveal_strlit("show_");
    reveal_strlit("quit_");
    reveal_strlit("header_");
    reveal_strlit("types_");
    reveal_strlit("entry_");
    reveal_strlit("more_");
    let l = tray_layout(es, summary, n);
    let first = seq![
        item_view(counted_id("header_"@, n), "📋 "@ + summary, false),
        MenuElementView::Separator,
        item_view(counted_id("types_"@, n), decimal(es.len()) + " type(s) on clipboard"@, false),
    ];
    let listed = Seq::new(listed_count(es.len()), |i: int| item_view(entry_id(n, i as nat), entry_label(es[i]), false));
    let more = more_line(es.len(), n);
    let actions = seq![
        MenuElementView::Separator,
        item_view(counted_id("openclip_"@, n), "Open with Current Clipboard"@, true),
        item_view(counted_id("show_"@, n), "Open Clipboard Investigator"@, true),
        item_view(counted_id("quit_"@, n), "Quit"@, true),
    ];
    assert(l == first + listed + more + actions);
    let m = first.len() + listed.len() + more.len();
    assert(l.len() == m + 4);
    assert("openclip_"@.subrange(0, 8) =~= "openclip"@);
    assert("show_"@.subrange(0, 4) =~= "show"@);
    assert("quit_"@.subrange(0, 4) =~= "quit"@);
    lemma_prefix_of_counted("openclip_"@, "openclip"@, n);
    lemma_prefix_of_counted("show_"@, "show"@, n);
    lemma_prefix_of_counted("quit_"@, "quit"@, n);
    lemma_first_char_rules_out(counted_id("show_"@, n), "openclip"@);
    lemma_first_char_rules_out(counted_id("quit_"@, n), "openclip"@);
    lemma_first_char_rules_out(counted_id("quit_"@, n), "show"@);
    assert(l[l.len() - 3] == actions[1]);
    assert(l[l.len() - 2] == actions[2]);
    assert(l[l.len() - 1] == actions[3]);
    assert forall|k: int| 0 <= k < l.len() - 3 implies (element_id(#[trigger] l[k]) matches Some(id) ==> action_for(id) == MenuAction::Nothing) by {
        if let Some(id) = element_id(l[k]) {
            assert(id.len() > 0 && (id[0] == 'h' || id[0] == 't' || id[0] == 'e' || id[0] == 'm')) by {
                if k < 3 {
                    assert(l[k] == first[k]);
                } else if k < 3 + listed.len() {
                    assert(l[k] == listed[k - 3]);
                    assert(entry_id(n, (k - 3) as nat)[0] == 'e');
                } else if k < m {
                    assert(l[k] == more[k - 3 - listed.len()]);
                } else {
                    assert(l[k] == actions[k - m]);
                }
            }
            lemma_first_char_rules_out(id, "openclip"@);
            lemma_first_char_rules_out(id, "show"@);
            lemma_first_char_rules_out(id, "quit"@);
        }
    }
}

/// Every character of `s` is a decimal digit.
pub open spec fn all_digits(s: Seq<char>) -> bool {
    forall|i: int| 0 <= i < s.len() ==> '0' <= #[trigger] s[i] <= '9'
}

proof fn lemma_decimal_shape(n: nat)
    ensures
        all_digits(decimal(n)),
        decimal(n).len() >= 1,
        n >= 10 ==> decimal(n).len() >= 2,
        n < 10 ==> decimal(n).len() == 1,
    decreases n,
{
    if n >= 10 {
        lemma_decimal_shape(n / 10);
    }
}

/// Different numbers have different decimal representations.
pub proof fn lemma_decimal_injective(a: nat, b: nat)
    requires
        decimal(a) == decimal(b),
    ensures
        a == b,
    decreases a,
{
    lemma_decimal_shape(a);
    lemma_decimal_shape(b);
    if a < 10 && b < 10 {
        assert(decimal(a) == seq![digit_char(a)]);
        assert(decimal(b) == seq![digit_char(b)]);
        assert(seq![digit_char(a)][0] == digit_char(a));
        assert(seq![digit_char(b)][0] == digit_char(b));
        assert(decimal(a)[0] == decimal(b)[0]);
        assert(digit_char(a) == digit_char(b));
        assert(digit_char(a) as int == 48 + a);
        assert(digit_char(b) as int == 48 + b);
        assert(a == b);
    } else if a >= 10 && b >= 10 {
        let da = decimal(a);
        let db = decimal(b);
        assert(da.drop_last() =~= decimal(a / 10));
        assert(db.drop_last() =~= decimal(b / 10));
        assert(da.last() == db.last());
        assert(digit_char(a % 10) as int == 48 + a % 10);
        assert(digit_char(b % 10) as int == 48 + b % 10);
        lemma_decimal_injective(a / 10, b / 10);
        assert(a % 10 == b % 10);
        vstd::arithmetic::div_mod::lemma_fundamental_div_mod(a as int, 10);
        vstd::arithmetic::div_mod::lemma_fundamental_div_mod(b as int, 10);
    } else {
        assert(decimal(a).len() != decimal(b).len());
    }
}

proof fn lemma_counted_id_injective(p: Seq<char>, n1: nat, n2: nat)
    requires
        counted_id(p, n1) == counted_id(p, n2),
    ensures
        n1 == n2,
{
    assert(counted_id(p, n1).skip(p.len() as int) =~= decimal(n1));
    assert(counted_id(p, n2).skip(p.len() as int) =~= decimal(n2));
    lemma_decimal_injective(n1, n2);
}

proof fn lemma_entry_id_injective(n1: nat, i1: nat, n2: nat, i2: nat)
    requires
        entry_id(n1, i1) == entry_id(n2, i2),
    ensures
        n1 == n2,
{
    reveal_strlit("entry_");
    reveal_strlit("_");
    lemma_decimal_shape(n1);
    lemma_decimal_shape(n2);
    let a = decimal(n1);
    let b = decimal(n2);
    let x = entry_id(n1, i1).skip(6);
    let y = entry_id(n2, i2).skip(6);
    assert(x =~= a + "_"@ + decimal(i1));
    assert(y =~= b + "_"@ + decimal(i2));
    assert(x == y);
    if a.len() < b.len() {
        assert(x[a.len() as int] == '_');
        assert(y[a.len() as int] == b[a.len() as int]);
    } else if b.len() < a.len() {
        assert(y[b.len() as int] == '_');
        assert(x[b.len() as int] == a[b.len() as int]);
    } else {
        assert(x.take(a.len() as int) =~= a);
        assert(y.take(b.len() as int) =~= b);
    }
    lemma_decimal_injective(n1, n2);
}

/// `id` is the identifier of an item of the tray menu built `n`-th.
pub open spec fn id_of_build(id: Seq<char>, n: nat) -> bool {
    ||| id == counted_id("header_"@, n)
    ||| id == counted_id("types_"@, n)
    ||| id == counted_id("more_"@, n)
    ||| id == counted_id("openclip_"@, n)
    ||| id == counted_id("show_"@, n)
    ||| id == counted_id("quit_"@, n)
    ||| exists|i: nat| id == #[trigger] entry_id(n, i)
}

/// Every item of the tray menu built `n`-th carries an identifier of that build.
pub proof fn lemma_tray_layout_ids(es: Seq<ClipboardEntry>, summary: Seq<char>, n: nat)
    ensures
        forall|k: int| 0 <= k < tray_layout(es, summary, n).len() ==> (element_id(#[trigger] tray_layout(es, summary, n)[k]) matches Some(id) ==> id_of_build(id, n)),
{
    let l = tray_layout(es, summary, n);
    let first = seq![
        item_view(counted_id("header_"@, n), "📋 "@ + summary, false),
        MenuElementView::Separator,
        item_view(counted_id("types_"@, n), decimal(es.len()) + " type(s) on clipboard"@, false),
    ];
    let listed = Seq::new(listed_count(es.len()), |i: int| item_view(entry_id(n, i as nat), entry_label(es[i]), false));
    let more = more_line(es.len(), n);
    let actions = seq![
        MenuElementView::Separator,
        item_view(counted_id("openclip_"@, n), "Open with Current Clipboard"@, true),
        item_view(counted_id("show_"@, n), "Open Clipboard Investigator"@, true),
        item_view(counted_id("quit_"@, n), "Quit"@, true),
    ];
    assert(l == first + listed + more + actions);
    let m = first.len() + listed.len() + more.len();
    assert forall|k: int| 0 <= k < l.len() implies (element_id(#[trigger] l[k]) matches Some(id) ==> id_of_build(id, n)) by {
        if k < 3 {
            assert(l[k] == first[k]);
        } else if k < 3 + listed.len() {
            assert(l[k] == listed[k - 3]);
            assert(element_id(l[k]) == Some(entry_id(n, (k - 3) as nat)));
        } else if k < m {
            assert(l[k] == more[k - 3 - listed.len()]);
        } else {
            assert(l[k] == actions[k - m]);
        }
    }
}

/// Identifiers of menus built with different numbers never coincide: every
/// identifier ends in its build's number (entries in the number and the
/// entry's index), so an item of one build is never taken for one of another.
pub proof fn lemma_build_ids_distinct(a: Seq<char>, n1: nat, b: Seq<char>, n2: nat)
    requires
        id_of_build(a, n1),
        id_of_build(b, n2),
        n1 != n2,
    ensures
        a != b,
{
    reveal_strlit("header_");
    reveal_strlit("types_");
    reveal_strlit("more_");
    reveal_strlit("openclip_");
    reveal_strlit("show_");
    reveal_strlit("quit_");
    reveal_strlit("entry_");
    if a == b {
        if exists|i: nat| a == #[trigger] entry_id(n1, i) {
            let i1 = choose|i: nat| a == #[trigger] entry_id(n1, i);
            assert(a[0] == 'e');
            if exists|i: nat| b == #[trigger] entry_id(n2, i) {
                let i2 = choose|i: nat| b == #[trigger] entry_id(n2, i);
                lemma_entry_id_injective(n1, i1, n2, i2);
            } else {
                assert(b[0] != 'e');
            }
        } else if exists|i: nat| b == #[trigger] entry_id(n2, i) {
            let i2 = choose|i: nat| b == #[trigger] entry_id(n2, i);
            assert(b[0] == 'e');
            assert(a[0] != 'e');
        } else if a == counted_id("header_"@, n1) {
            assert(b == counted_id("header_"@, n2)) by { assert(b[0] == 'h'); }
            lemma_counted_id_injective("header_"@, n1, n2);
        } else if a == counted_id("types_"@, n1) {
            assert(b == counted_id("types_"@, n2)) by { assert(b[0] == 't'); }
            lemma_counted_id_injective("types_"@, n1, n2);
        } else if a == counted_id("more_"@, n1) {
            assert(b == counted_id("more_"@, n2)) by { assert(b[0] == 'm'); }
            lemma_counted_id_injective("more_"@, n1, n2);
        } else if a == counted_id("openclip_"@, n1) {
            assert(b == counted_id("openclip_"@, n2)) by { assert(b[0] == 'o'); }
            lemma_counted_id_injective("openclip_"@, n1, n2);
        } else if a == counted_id("show_"@, n1) {
            assert(b == counted_id("show_"@, n2)) by { assert(b[0] == 's'); }
            lemma_counted_id_injective("show_"@, n1, n2);
        } else {
            assert(b == counted_id("quit_"@, n2)) by { assert(b[0] == 'q'); }
            lemma_counted_id_injective("quit_"@, n1, n2);
        }
    }
}

/// No item of the tray menu built `n1`-th has the identifier of an item of
/// the one built `n2`-th, where `n1` and `n2` differ.
pub proof fn lemma_tray_layouts_ids_distinct(
    es1: Seq<ClipboardEntry>,
    s1: Seq<char>,
    n1: nat,
    es2: Seq<ClipboardEntry>,
    s2: Seq<char>,
    n2: nat,
)
    requires
        n1 != n2,
    ensures
        forall|k1: int, k2: int|
            0 <= k1 < tray_layout(es1, s1, n1).len() && 0 <= k2 < tray_layout(es2, s2, n2).len()
                && element_id(#[trigger] tray_layout(es1, s1, n1)[k1]) is Some
                && element_id(#[trigger] tray_layout(es2, s2, n2)[k2]) is Some
                ==> element_id(tray_layout(es1, s1, n1)[k1]) != element_id(tray_layout(es2, s2, n2)[k2]),
{
    lemma_tray_layout_ids(es1, s1, n1);
    lemma_tray_layout_ids(es2, s2, n2);
    let l1 = tray_layout(es1, s1, n1);
    let l2 = tray_layout(es2, s2, n2);
    assert forall|k1: int, k2: int|
        0 <= k1 < l1.len() && 0 <= k2 < l2.len() && element_id(#[trigger] l1[k1]) is Some && element_id(#[trigger] l2[k2]) is Some
        implies element_id(l1[k1]) != element_id(l2[k2]) by {
        let a = element_id(l1[k1])->0;
        let b = element_id(l2[k2])->0;
        lemma_build_ids_distinct(a, n1, b, n2);
    }
}

/// The counter that numbers the builds of the tray menu.
pub struct MenuCounter {
    /// The number the next build gets.
    pub next: u64,
}

/// The number after `n`, wrapping from the largest to 0 (`wrapping_add(1)`).
pub open spec fn following(n: u64) -> u64 {
    if n == u64::MAX {
        0
    } else {
        (n + 1) as u64
    }
}

/// The number that the `j`-th build after a counter at `start` gets (the
/// first build counting as the 0-th).
pub open spec fn drawn(start: u64, j: nat) -> u64 {
    ((start + j) % 0x1_0000_0000_0000_0000) as u64
}

impl MenuCounter {
    /// The counter at start: the first build gets number 0.
    pub fn new() -> (r: MenuCounter)
        ensures
            r.next == 0,
    {
        MenuCounter { next: 0 }
    }

    /// Gives the number of a new build and moves the counter on by one,
    /// wrapping from the largest number to 0.
    pub fn take(&mut self) -> (n: u64)
        ensures
            n == old(self).next,
            final(self).next == following(old(self).next),
    {
        let n = self.next;
        self.next = if n == u64::MAX { 0 } else { n + 1 };
        n
    }
}

proof fn lemma_drawn_value(start: u64, j: nat)
    requires
        j < 0x1_0000_0000_0000_0000,
    ensures
        drawn(start, j) as int == (if start + j < 0x1_0000_0000_0000_0000 {
            start + j
        } else {
            start + j - 0x1_0000_0000_0000_0000
        }),
{
    let m: int = 0x1_0000_0000_0000_0000;
    let x: int = start + j;
    if x < m {
        vstd::arithmetic::div_mod::lemma_small_mod(x as nat, m as nat);
    } else {
        vstd::arithmetic::div_mod::lemma_small_mod((x - m) as nat, m as nat);
        vstd::arithmetic::div_mod::lemma_mod_sub_multiples_vanish(x, m);
    }
}

/// Taking numbers one after another: the 0-th build gets the counter's
/// number, and each take moves on to the next drawn number.
pub proof fn lemma_drawn_steps(start: u64, j: nat)
    requires
        j + 1 < 0x1_0000_0000_0000_0000,
    ensures
        drawn(start, 0) == start,
        following(drawn(start, j)) == drawn(start, j + 1),
{
    lemma_drawn_value(start, 0);
    lemma_drawn_value(start, j);
    lemma_drawn_value(start, j + 1);
}

/// Every build gets a new number: of fewer than 2^64 builds from one
/// counter, no two get the same number.
pub proof fn lemma_drawn_distinct(start: u64, j1: nat, j2: nat)
    requires
        j1 < 0x1_0000_0000_0000_0000,
        j2 < 0x1_0000_0000_0000_0000,
        j1 != j2,
    ensures
        drawn(start, j1) != drawn(start, j2),
{
    lemma_drawn_value(start, j1);
    lemma_drawn_value(start, j2);
}

/// No item of one build of the tray menu has the identifier of an item of
/// another build from the same counter, among fewer than 2^64 builds.
pub proof fn lemma_builds_never_share_ids(
    start: u64,
    j1: nat,
    es1: Seq<ClipboardEntry>,
    s1: Seq<char>,
    j2: nat,
    es2: Seq<ClipboardEntry>,
    s2: Seq<char>,
)
    requires
        j1 < 0x1_0000_0000_0000_0000,
        j2 < 0x1_0000_0000_0000_0000,
        j1 != j2,
    ensures
        forall|k1: int, k2: int|
            0 <= k1 < tray_layout(es1, s1, drawn(start, j1) as nat).len() && 0 <= k2 < tray_layout(es2, s2, drawn(start, j2) as nat).len()
                && element_id(#[trigger] tray_layout(es1, s1, drawn(start, j1) as nat)[k1]) is Some
                && element_id(#[trigger] tray_layout(es2, s2, drawn(start, j2) as nat)[k2]) is Some
                ==> element_id(tray_layout(es1, s1, drawn(start, j1) as nat)[k1]) != element_id(tray_layout(es2, s2, drawn(start, j2) as nat)[k2]),
{
    lemma_drawn_distinct(start, j1, j2);
    lemma_tray_layouts_ids_distinct(es1, s1, drawn(start, j1) as nat, es2, s2, drawn(start, j2) as nat);
}

/// The tray menu before the first clipboard read: the three actions.
pub open spec fn initial_layout() -> Seq<MenuElementView> {
    seq![
        item_view("openclip_init"@, "Open with Current Clipboard"@, true),
        item_view("show_init"@, "Open Clipboard Investigator"@, true),
        item_view("quit_init"@, "Quit"@, true),
    ]
}

/// The elements of the tray menu before the first clipboard read.
pub fn initial_tray_menu() -> (r: Vec<MenuElement>)
    ensures
        elements_view(r@) == initial_layout(),
{
    let mut r: Vec<MenuElement> = Vec::new();
    let a1 = item(String::from_str("openclip_init"), String::from_str("Open with Current Clipboard"), true);
    let a2 = item(String::from_str("show_init"), String::from_str("Open Clipboard Investigator"), true);
    let a3 = item(String::from_str("quit_init"), String::from_str("Quit"), true);
    let ghost r0 = r@;
    r.push(a1);
    let ghost r1 = r@;
    r.push(a2);
    let ghost r2 = r@;
    r.push(a3);
    proof {
        lemma_view_push(r0, a1);
        lemma_view_push(r1, a2);
        lemma_view_push(r2, a3);
    }
    assert(elements_view(r@) =~= initial_layout());
    r
}

/// The three items of the initial tray menu open the window with the
/// clipboard, show the window, and quit.
pub proof fn lemma_initial_menu_actions()
    ensures
        action_for("openclip_init"@) == MenuAction::OpenWithClipboard,
        action_for("show_init"@) == MenuAction::Show,
        action_for("quit_init"@) == MenuAction::Quit,
{
    reveal_strlit("openclip_init");
    reveal_strlit("show_init");
    reveal_strlit("quit_init");
    reveal_strlit("openclip");
    reveal_strlit("show");
    reveal_strlit("quit");
    assert("openclip_init"@.subrange(0, 8) =~= "openclip"@);
    assert("show_init"@.subrange(0, 4) =~= "show"@);
    assert("quit_init"@.subrange(0, 4) =~= "quit"@);
    lemma_first_char_rules_out("show_init"@, "openclip"@);
    lemma_first_char_rules_out("quit_init"@, "openclip"@);
    lemma_first_char_rules_out("quit_init"@, "show"@);
}

} // verus!
