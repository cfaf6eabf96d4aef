use vstd::prelude::*;

use crate::ipc::{BadgeState, UserEvent};

verus! {

/// The entries of the tray menu. The `Test...` entries exist in debug builds
/// only; they force a badge by hand until `TestResume` hands the badge back
/// to the page.
#[derive(Clone, Copy, Debug, PartialEq, Eq, Structural)]
pub enum MenuChoice {
    /// Force a bare dot.
    TestDot,
    /// Force the count 5.
    TestCount,
    /// Force the count 150, shown as `99+`.
    TestBig,
    /// Force a clear badge.
    TestClear,
    /// Let the page set the badge again.
    TestResume,
    /// Quit the application.
    Quit,
    /// Any entry the shell does not handle.
    Other,
}

/// What the event loop observed.
#[derive(Clone, Copy, Debug, PartialEq, Eq, Structural)]
pub enum LoopEvent {
    /// The tray icon was clicked.
    TrayClick { left_button: bool, released: bool },
    /// A tray menu entry was chosen.
    Menu(MenuChoice),
    /// The user asked to close the window.
    CloseRequested,
    /// The page raised an event.
    User(UserEvent),
    /// The application was reopened from the dock (macOS).
    Reopen { has_visible_windows: bool },
    /// Anything else.
    Other,
}

/// What the event loop is to do next.
#[derive(Clone, Copy, Debug, PartialEq, Eq, Structural)]
pub enum Action {
    /// Make the window visible and give it the focus.
    ShowWindow,
    /// Hide the window; the application keeps running in the tray.
    HideWindow,
    /// Start moving the window with the mouse.
    DragWindow,
    /// Show this badge on the tray icon and the dock.
    ApplyBadge(BadgeState),
    /// Leave the event loop.
    Exit,
    /// Nothing.
    Nothing,
}

/// The state that the event loop keeps between events.
#[derive(Clone, Copy, Debug, PartialEq, Eq, Structural)]
pub struct Controller {
    /// The badge the tray shows.
    pub badge_state: BadgeState,
    /// Whether a badge was forced from the menu, which the page may not
    /// override.
    pub manual_override: bool,
}

/// A badge forced from the menu.
pub open spec fn forced(state: BadgeState) -> (Controller, Action) {
    (Controller { badge_state: state, manual_override: true }, Action::ApplyBadge(state))
}

/// The next state and the action for one observed event. `window_visible`
/// tells whether the window is currently shown.
pub open spec fn step_spec(c: Controller, event: LoopEvent, window_visible: bool) -> (
    Controller,
    Action,
) {
    match event {
        LoopEvent::TrayClick { left_button, released } => (
            c,
            if left_button && released {
                Action::ShowWindow
            } else {
                Action::Nothing
            },
        ),
        LoopEvent::Menu(choice) => match choice {
            MenuChoice::TestDot => forced(BadgeState::Dot),
            MenuChoice::TestCount => forced(BadgeState::Count(5)),
            MenuChoice::TestBig => forced(BadgeState::Count(150)),
            MenuChoice::TestClear => forced(BadgeState::Clear),
            MenuChoice::TestResume => (
                Controller { badge_state: c.badge_state, manual_override: false },
                Action::Nothing,
            ),
            MenuChoice::Quit => (c, Action::Exit),
            MenuChoice::Other => (c, Action::Nothing),
        },
        LoopEvent::CloseRequested => (c, Action::HideWindow),
        LoopEvent::User(UserEvent::DragWindow) => (c, Action::DragWindow),
        LoopEvent::User(UserEvent::PageLoaded) => (
            c,
            if window_visible {
                Action::Nothing
            } else {
                Action::ShowWindow
            },
        ),
        LoopEvent::User(UserEvent::SetBadge(state)) => {
            if c.manual_override || state == c.badge_state {
                (c, Action::Nothing)
            } else {
                (
                    Controller { badge_state: state, manual_override: c.manual_override },
                    Action::ApplyBadge(state),
                )
            }
        },
        LoopEvent::Reopen { has_visible_windows } => (
            c,
            if has_visible_windows {
                Action::Nothing
            } else {
                Action::ShowWindow
            },
        ),
        LoopEvent::Other => (c, Action::Nothing),
    }
}

impl Controller {
    /// The state at start-up: no badge, nothing forced.
    pub fn new() -> (c: Controller)
        ensures
            c.badge_state == BadgeState::Clear,
            !c.manual_override,
    {
        Controller { badge_state: BadgeState::Clear, manual_override: false }
    }

    fn force(&mut self, state: BadgeState) -> (a: Action)
        ensures
            (*final(self), a) == forced(state),
    {
        self.badge_state = state;
        self.manual_override = true;
        Action::ApplyBadge(state)
    }

    /// Decides what one observed event leads to, and updates the state.
    pub fn step(&mut self, event: LoopEvent, window_visible: bool) -> (a: Action)
        ensures
            (*final(self), a) == step_spec(*old(self), event, window_visible),
    {
        match event {
            LoopEvent::TrayClick { left_button, released } => {
                if left_button && released {
                    Action::ShowWindow
                } else {
                    Action::Nothing
                }
            },
            LoopEvent::Menu(choice) => match choice {
                MenuChoice::TestDot => self.force(BadgeState::Dot),
                MenuChoice::TestCount => self.force(BadgeState::Count(5)),
                MenuChoice::TestBig => self.force(BadgeState::Count(150)),
                MenuChoice::TestClear => self.force(BadgeState::Clear),
                MenuChoice::TestResume => {
                    self.manual_override = false;
                    Action::Nothing
                },
                MenuChoice::Quit => Action::Exit,
                MenuChoice::Other => Action::Nothing,
            },
            LoopEvent::CloseRequested => Action::HideWindow,
            LoopEvent::User(UserEvent::DragWindow) => Action::DragWindow,
            LoopEvent::User(UserEvent::PageLoaded) => {
                if window_visible {
                    Action::Nothing
                } else {
                    Action::ShowWindow
                }
            },
            LoopEvent::User(UserEvent::SetBadge(state)) => {
                if self.manual_override || state == self.badge_state {
                    Action::Nothing
                } else {
                    self.badge_state = state;
                    Action::ApplyBadge(state)
                }
            },
            LoopEvent::Reopen { has_visible_windows } => {
                if has_visible_windows {
                    Action::Nothing
                } else {
                    Action::ShowWindow
                }
            },
            LoopEvent::Other => Action::Nothing,
        }
    }
}

// ---------------------------------------------------------------------------
// Laws
// ---------------------------------------------------------------------------

/// The tray shows what the state says: a step that changes the badge state
/// applies the new badge, and a step that applies a badge records it.
pub proof fn law_badge_follows_state(c: Controller, event: LoopEvent, window_visible: bool)
    ensures
        ({
            let (next, action) = step_spec(c, event, window_visible);
            &&& action matches Action::ApplyBadge(s) ==> next.badge_state == s
            &&& next.badge_state != c.badge_state ==> action == Action::ApplyBadge(
                next.badge_state,
            )
        }),
{
}

/// While a badge is forced from the menu, the page cannot change it.
pub proof fn law_forced_badge_holds(c: Controller, state: BadgeState, window_visible: bool)
    requires
        c.manual_override,
    ensures
        step_spec(c, LoopEvent::User(UserEvent::SetBadge(state)), window_visible) == (
            c,
            Action::Nothing,
        ),
{
}

/// Otherwise the page's badge is taken and applied once: reporting the same
/// state again does nothing.
pub proof fn law_page_badge_applied_once(
    c: Controller,
    state: BadgeState,
    visible1: bool,
    visible2: bool,
)
    requires
        !c.manual_override,
    ensures
        ({
            let (next, action) = step_spec(c, LoopEvent::User(UserEvent::SetBadge(state)), visible1);
            &&& next.badge_state == state
            &&& !next.manual_override
            &&& action == if c.badge_state == state {
                Action::Nothing
            } else {
                Action::ApplyBadge(state)
            }
            &&& step_spec(next, LoopEvent::User(UserEvent::SetBadge(state)), visible2) == (
                next,
                Action::Nothing,
            )
        }),
{
}

/// The test entries of the menu force their badge and apply it, whatever
/// was shown; resuming hands the badge back to the page without changing it.
pub proof fn law_menu_forces_and_resumes(c: Controller, window_visible: bool)
    ensures
        step_spec(c, LoopEvent::Menu(MenuChoice::TestDot), window_visible) == forced(
            BadgeState::Dot,
        ),
        step_spec(c, LoopEvent::Menu(MenuChoice::TestCount), window_visible) == forced(
            BadgeState::Count(5),
        ),
        step_spec(c, LoopEvent::Menu(MenuChoice::TestBig), window_visible) == forced(
            BadgeState::Count(150),
        ),
        step_spec(c, LoopEvent::Menu(MenuChoice::TestClear), window_visible) == forced(
            BadgeState::Clear,
        ),
        ({
            let (next, action) = step_spec(c, LoopEvent::Menu(MenuChoice::TestResume), window_visible);
            &&& next.badge_state == c.badge_state
            &&& !next.manual_override
            &&& action == Action::Nothing
        }),
{
}

/// Quitting from the menu leaves the loop and changes nothing else.
pub proof fn law_quit_exits(c: Controller, window_visible: bool)
    ensures
        step_spec(c, LoopEvent::Menu(MenuChoice::Quit), window_visible) == (c, Action::Exit),
{
}

/// Only badge events and the test entries of the menu touch the state; the
/// window events leave it as it is.
pub proof fn law_window_events_keep_state(c: Controller, event: LoopEvent, window_visible: bool)
    requires
        !(event matches LoopEvent::User(UserEvent::SetBadge(_))),
        !(event matches LoopEvent::Menu(_)),
    ensures
        step_spec(c, event, window_visible).0 == c,
{
}

/// Closing the window hides it: the application lives on in the tray.
pub proof fn law_close_hides(c: Controller, window_visible: bool)
    ensures
        step_spec(c, LoopEvent::CloseRequested, window_visible) == (c, Action::HideWindow),
{
}

/// A left-button release on the tray icon shows and focuses the window
/// whether or not it is already visible; any other click does nothing. A
/// click never changes the state.
pub proof fn law_tray_click_shows_window(
    c: Controller,
    left_button: bool,
    released: bool,
    window_visible: bool,
)
    ensures
        step_spec(c, LoopEvent::TrayClick { left_button, released }, window_visible) == (
            c,
            if left_button && released {
                Action::ShowWindow
            } else {
                Action::Nothing
            },
        ),
        step_spec(c, LoopEvent::TrayClick { left_button: true, released: true }, window_visible)
            == (c, Action::ShowWindow),
{
}

/// The page's drag request starts a drag; the first page load shows the
/// window only when it is hidden; reopening from the dock shows it only when
/// no window is visible. None of these changes the state.
pub proof fn law_window_requests(c: Controller, window_visible: bool, has_visible_windows: bool)
    ensures
        step_spec(c, LoopEvent::User(UserEvent::DragWindow), window_visible) == (
            c,
            Action::DragWindow,
        ),
        step_spec(c, LoopEvent::User(UserEvent::PageLoaded), false) == (c, Action::ShowWindow),
        step_spec(c, LoopEvent::User(UserEvent::PageLoaded), true) == (c, Action::Nothing),
        step_spec(c, LoopEvent::Reopen { has_visible_windows: false }, window_visible) == (
            c,
            Action::ShowWindow,
        ),
        step_spec(c, LoopEvent::Reopen { has_visible_windows: true }, window_visible) == (
            c,
            Action::Nothing,
        ),
        step_spec(c, LoopEvent::Other, window_visible) == (c, Action::Nothing),
        step_spec(c, LoopEvent::Menu(MenuChoice::Other), window_visible) == (c, Action::Nothing),
{
}

} // verus!
