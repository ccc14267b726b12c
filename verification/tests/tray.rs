use clipboard_investigator::entry::ClipboardEntry;
use clipboard_investigator::tray::{initial_tray_menu, menu_action, tray_menu_layout, MenuAction, MenuCounter, MenuElement};

fn entry(uti: &str, is_text: bool, size: usize) -> ClipboardEntry {
    ClipboardEntry { uti: uti.to_string(), data: String::new(), is_text, size }
}

fn flat(es: &[MenuElement]) -> Vec<Option<(String, String, bool)>> {
    es.iter()
        .map(|e| match e {
            MenuElement::Item(i) => Some((i.id.clone(), i.label.clone(), i.enabled)),
            MenuElement::Separator => None,
        })
        .collect()
}

fn it(id: &str, label: &str, enabled: bool) -> Option<(String, String, bool)> {
    Some((id.to_string(), label.to_string(), enabled))
}

#[test]
fn layout_lists_entries() {
    let es = vec![entry("public.utf8-plain-text", true, 5), entry("public.png", false, 1024)];
    let got = flat(&tray_menu_layout(&es, "hello", 7));
    assert_eq!(
        got,
        vec![
            it("header_7", "📋 hello", false),
            None,
            it("types_7", "2 type(s) on clipboard", false),
            it("entry_7_0", "  public.utf8-plain-text — 5 bytes (text)", false),
            it("entry_7_1", "  public.png — 1024 bytes", false),
            None,
            it("openclip_7", "Open with Current Clipboard", true),
            it("show_7", "Open Clipboard Investigator", true),
            it("quit_7", "Quit", true),
        ]
    );
}

#[test]
fn layout_counts_entries_beyond_ten() {
    let es: Vec<ClipboardEntry> = (0..13).map(|i| entry(&format!("t{}", i), false, i)).collect();
    let got = flat(&tray_menu_layout(&es, "[13 types on clipboard]", 0));
    assert_eq!(got.len(), 3 + 10 + 1 + 4);
    assert_eq!(got[2], it("types_0", "13 type(s) on clipboard", false));
    assert_eq!(got[12], it("entry_0_9", "  t9 — 9 bytes", false));
    assert_eq!(got[13], it("more_0", "  ...and 3 more", false));
}

#[test]
fn layout_of_empty_clipboard() {
    let got = flat(&tray_menu_layout(&vec![], "(empty)", 12));
    assert_eq!(got.len(), 7);
    assert_eq!(got[0], it("header_12", "📋 (empty)", false));
    assert_eq!(got[2], it("types_12", "0 type(s) on clipboard", false));
}

#[test]
fn menu_actions_follow_prefixes() {
    assert_eq!(menu_action("openclip_3"), MenuAction::OpenWithClipboard);
    assert_eq!(menu_action("show_3"), MenuAction::Show);
    assert_eq!(menu_action("quit_3"), MenuAction::Quit);
    assert_eq!(menu_action("header_3"), MenuAction::Nothing);
    assert_eq!(menu_action("entry_3_1"), MenuAction::Nothing);
    assert_eq!(menu_action(""), MenuAction::Nothing);
    assert_eq!(menu_action("sho"), MenuAction::Nothing);
}

#[test]
fn every_layout_item_asks_for_its_action() {
    let es: Vec<ClipboardEntry> = (0..12).map(|i| entry("public.png", false, i)).collect();
    let layout = tray_menu_layout(&es, "s", 42);
    let n = layout.len();
    for (k, e) in layout.iter().enumerate() {
        if let MenuElement::Item(i) = e {
            let expected = if k == n - 3 {
                MenuAction::OpenWithClipboard
            } else if k == n - 2 {
                MenuAction::Show
            } else if k == n - 1 {
                MenuAction::Quit
            } else {
                MenuAction::Nothing
            };
            assert_eq!(menu_action(&i.id), expected);
        }
    }
}

#[test]
fn initial_menu_has_the_three_actions() {
    let got = flat(&initial_tray_menu());
    assert_eq!(
        got,
        vec![
            it("openclip_init", "Open with Current Clipboard", true),
            it("show_init", "Open Clipboard Investigator", true),
            it("quit_init", "Quit", true),
        ]
    );
    let actions: Vec<MenuAction> = initial_tray_menu()
        .iter()
        .map(|e| match e {
            MenuElement::Item(i) => menu_action(&i.id),
            MenuElement::Separator => MenuAction::Nothing,
        })
        .collect();
    assert_eq!(actions, vec![MenuAction::OpenWithClipboard, MenuAction::Show, MenuAction::Quit]);
}

#[test]
fn ids_of_different_builds_never_coincide() {
    let es: Vec<ClipboardEntry> = (0..12).map(|i| entry("public.png", false, i)).collect();
    let ids = |n: u64| -> Vec<String> {
        tray_menu_layout(&es, "s", n)
            .iter()
            .filter_map(|e| match e {
                MenuElement::Item(i) => Some(i.id.clone()),
                MenuElement::Separator => None,
            })
            .collect()
    };
    for (a, b) in [(1u64, 11u64), (1, 2), (0, 10), (12, 1)] {
        let x = ids(a);
        let y = ids(b);
        assert!(x.iter().all(|id| !y.contains(id)), "builds {} and {}", a, b);
    }
}

#[test]
fn counter_numbers_builds() {
    let mut c = MenuCounter::new();
    assert_eq!(c.take(), 0);
    assert_eq!(c.take(), 1);
    assert_eq!(c.next, 2);
    let mut c = MenuCounter { next: u64::MAX };
    assert_eq!(c.take(), u64::MAX);
    assert_eq!(c.take(), 0);
}
