//! The decisions that the tray application takes between outside events:
//! whether to rebuild the tray menu on a timer tick, and what showing or
//! hiding the window has to do.

use vstd::prelude::*;

verus! {

/// Seconds after a click on the tray icon during which the menu is taken to
/// be open and is not rebuilt.
pub const MENU_OPEN_GRACE_SECS: u64 = 10;

/// `a - b`, or 0 where `b` exceeds `a`.
pub open spec fn saturating_sub(a: u64, b: u64) -> u64 {
    if a >= b {
        (a - b) as u64
    } else {
        0
    }
}

/// What the tray remembers between timer ticks.
pub struct TrayRefresh {
    /// Seconds since the epoch of the last click on the tray icon; 0 once
    /// the menu has been closed.
    pub menu_opened_at: u64,
    /// The pasteboard change count seen at the last tick that was not skipped.
    pub last_change_count: u64,
}

/// The menu is likely open at `now`: it was opened less than ten seconds
/// earlier (or the clock went back) and has not been closed since.
pub open spec fn menu_likely_open(opened_at: u64, now: u64) -> bool {
    opened_at > 0 && saturating_sub(now, opened_at) < 10
}

/// A timer tick at time `now` with pasteboard change count `current`: the
/// new state and whether to rebuild the menu. While the menu is likely open
/// nothing changes and nothing is rebuilt; otherwise the count is
/// remembered, and the menu is rebuilt exactly when the count changed.
pub open spec fn tick(s: TrayRefresh, now: u64, current: u64) -> (TrayRefresh, bool) {
    if menu_likely_open(s.menu_opened_at, now) {
        (s, false)
    } else {
        (TrayRefresh { menu_opened_at: s.menu_opened_at, last_change_count: current }, current != s.last_change_count)
    }
}

impl TrayRefresh {
    /// The state at start: the menu not open, and no change count seen yet
    /// (the largest count stands for none).
    pub fn new() -> (r: TrayRefresh)
        ensures
            r.menu_opened_at == 0,
            r.last_change_count == u64::MAX,
    {
        TrayRefresh { menu_opened_at: 0, last_change_count: u64::MAX }
    }

    /// Forgets the change count seen, so that the next tick that is not
    /// skipped rebuilds the menu unless the count is the largest one.
    pub fn forget_change_count(&mut self)
        ensures
            final(self).menu_opened_at == old(self).menu_opened_at,
            final(self).last_change_count == u64::MAX,
    {
        self.last_change_count = u64::MAX;
    }

    /// A click on the tray icon at time `now` opens the menu.
    pub fn menu_opened(&mut self, now: u64)
        ensures
            final(self).menu_opened_at == now,
            final(self).last_change_count == old(self).last_change_count,
    {
        self.menu_opened_at = now;
    }

    /// A click on a menu item closes the menu.
    pub fn menu_closed(&mut self)
        ensures
            final(self).menu_opened_at == 0,
            final(self).last_change_count == old(self).last_change_count,
    {
        self.menu_opened_at = 0;
    }

    /// The first step of a timer tick, on the time alone: whether the tick
    /// is skipped because the menu is likely open. A skipped tick reads
    /// nothing and changes nothing.
    pub fn skips_tick(&self, now: u64) -> (r: bool)
        ensures
            r == menu_likely_open(self.menu_opened_at, now),
    {
        self.menu_opened_at > 0 && now.saturating_sub(self.menu_opened_at) < MENU_OPEN_GRACE_SECS
    }

    /// The second step of a tick that is not skipped: remembers the
    /// pasteboard change count `current` and returns whether it differs from
    /// the one seen before, that is whether to rebuild the menu.
    pub fn note_change_count(&mut self, current: u64) -> (r: bool)
        ensures
            final(self).menu_opened_at == old(self).menu_opened_at,
            final(self).last_change_count == current,
            r == (current != old(self).last_change_count),
    {
        let previous = self.last_change_count;
        self.last_change_count = current;
        current != previous
    }

    /// A timer tick at time `now` with pasteboard change count `current`,
    /// both steps in one: returns whether to rebuild the menu.
    pub fn should_rebuild(&mut self, now: u64, current: u64) -> (r: bool)
        ensures
            (*final(self), r) == tick(*old(self), now, current),
    {
        if self.skips_tick(now) {
            return false;
        }
        self.note_change_count(current)
    }
}

/// The tick in two steps is the tick: the time alone decides whether it is
/// skipped, and only a tick that is not skipped looks at the change count.
pub proof fn lemma_tick_in_two_steps(s: TrayRefresh, now: u64, current: u64)
    ensures
        menu_likely_open(s.menu_opened_at, now) ==> tick(s, now, current) == (s, false),
        !menu_likely_open(s.menu_opened_at, now) ==> tick(s, now, current) == (
            TrayRefresh { menu_opened_at: s.menu_opened_at, last_change_count: current },
            current != s.last_change_count,
        ),
        forall|other: u64| menu_likely_open(s.menu_opened_at, now) ==> #[trigger] tick(s, now, other) == tick(s, now, current),
{
}

/// Two ticks in a row with the same change count, the first not skipped:
/// the second does not rebuild the menu, whatever the time.
pub proof fn lemma_unchanged_count_rebuilds_once(s: TrayRefresh, now1: u64, now2: u64, count: u64)
    requires
        !menu_likely_open(s.menu_opened_at, now1),
    ensures
        !tick(tick(s, now1, count).0, now2, count).1,
{
}

/// A tick that is not skipped rebuilds the menu exactly when the change
/// count differs from the one last seen, and remembers the new count.
pub proof fn lemma_rebuild_iff_changed(s: TrayRefresh, now: u64, count: u64)
    requires
        !menu_likely_open(s.menu_opened_at, now),
    ensures
        tick(s, now, count).1 == (count != s.last_change_count),
        tick(s, now, count).0.last_change_count == count,
{
}

/// After a click on the tray icon at time `t` (after the epoch), every tick
/// up to nine seconds later is skipped and leaves the state as it is.
pub proof fn lemma_no_rebuild_while_menu_open(s: TrayRefresh, t: u64, now: u64, count: u64)
    requires
        t > 0,
        now < t + 10,
    ensures
        ({
            let opened = TrayRefresh { menu_opened_at: t, last_change_count: s.last_change_count };
            tick(opened, now, count) == (opened, false)
        }),
{
}

/// The pause lasts ten seconds and no more: a tick ten or more seconds
/// after the click on the tray icon is never skipped, so it rebuilds the
/// menu exactly when the change count differs from the one last seen, and
/// remembers the new count.
pub proof fn lemma_pause_ends_after_ten_seconds(s: TrayRefresh, now: u64, count: u64)
    requires
        now >= s.menu_opened_at + 10,
    ensures
        !menu_likely_open(s.menu_opened_at, now),
        tick(s, now, count).1 == (count != s.last_change_count),
        tick(s, now, count).0.last_change_count == count,
        tick(s, now, count).0.menu_opened_at == s.menu_opened_at,
{
}

/// A tick is skipped exactly within the ten seconds after a recorded click:
/// for a click at time `t > 0`, the tick at `now` is skipped if and only if
/// `now < t + 10`.
pub proof fn lemma_skip_window(t: u64, now: u64)
    requires
        t > 0,
    ensures
        menu_likely_open(t, now) <==> now < t + 10,
{
}

/// Once the menu is closed, no tick is skipped.
pub proof fn lemma_closed_menu_never_skips(s: TrayRefresh, now: u64)
    requires
        s.menu_opened_at == 0,
    ensures
        !menu_likely_open(s.menu_opened_at, now),
{
}

/// Whether the window is shown.
pub struct WindowVisibility {
    pub visible: bool,
}

/// What showing the window has to do.
#[derive(PartialEq, Eq, Structural, Debug, Clone, Copy)]
pub enum ShowAction {
    /// The window is shown already: focus it.
    Focus,
    /// Make the application a regular one again, then show, unminimize and focus the window.
    Reveal,
}

/// Showing the window from visibility `visible`: the action, and the window
/// is visible after.
pub open spec fn show_step(visible: bool) -> (bool, ShowAction) {
    (true, if visible { ShowAction::Focus } else { ShowAction::Reveal })
}

/// Hiding the window from visibility `visible`: whether there is anything to
/// hide, and the window is hidden after.
pub open spec fn hide_step(visible: bool) -> (bool, bool) {
    (false, visible)
}

impl WindowVisibility {
    /// The window is shown at start.
    pub fn new() -> (r: WindowVisibility)
        ensures
            r.visible,
    {
        WindowVisibility { visible: true }
    }

    /// Shows the window: returns what doing so takes.
    pub fn show_window(&mut self) -> (r: ShowAction)
        ensures
            (final(self).visible, r) == show_step(old(self).visible),
    {
        if self.visible {
            return ShowAction::Focus;
        }
        self.visible = true;
        ShowAction::Reveal
    }

    /// Hides the window: returns whether it was shown, that is whether it
    /// has to be hidden and the application made an accessory one.
    pub fn hide_window(&mut self) -> (r: bool)
        ensures
            (final(self).visible, r) == hide_step(old(self).visible),
    {
        if !self.visible {
            return false;
        }
        self.visible = false;
        true
    }
}

/// Showing a window twice: the second time only focuses it.
pub proof fn lemma_show_twice_focuses(visible: bool)
    ensures
        show_step(show_step(visible).0).1 == ShowAction::Focus,
{
}

/// Showing a hidden window reveals it, and hiding it again has something to hide.
pub proof fn lemma_hide_then_show_reveals(visible: bool)
    ensures
        show_step(hide_step(visible).0).1 == ShowAction::Reveal,
        hide_step(show_step(visible).0).1,
{
}

/// Hiding a window twice: the second time there is nothing to hide.
pub proof fn lemma_hide_twice_is_idle(visible: bool)
    ensures
        !hide_step(hide_step(visible).0).1,
{
}

} // verus!
