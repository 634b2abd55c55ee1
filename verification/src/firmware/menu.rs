//! Menu input handling of the firmware: the menu communication types and the
//! controller that turns key and encoder events into menu inputs, deciding
//! between a short and a long press of SW1.

use vstd::prelude::*;

verus! {

/// Menu input event.
#[derive(Clone, Copy, Debug, PartialEq, Eq, Structural)]
pub enum MenuInput {
    /// Encoder turned counter-clockwise (scroll up).
    ScrollUp,
    /// Encoder turned clockwise (scroll down).
    ScrollDown,
    /// Confirm key.
    Select,
    /// Back key.
    Back,
    /// Long press of SW1: enter the menu.
    EnterMenu,
    /// Leave the menu.
    ExitMenu,
}

/// Page identifier.
#[derive(Clone, Copy, Debug, PartialEq, Eq, Structural)]
pub enum PageId {
    /// Home page (keyboard status).
    Home,
    /// Main menu.
    MainMenu,
    /// Bluetooth settings.
    BleSettings,
    /// About.
    About,
}

impl Default for PageId {
    fn default() -> (r: Self)
        ensures
            r == PageId::Home,
    {
        PageId::Home
    }
}

/// Menu state, as the display task broadcasts it.
#[derive(Clone, Copy, Debug, PartialEq, Eq, Structural)]
pub struct MenuState {
    /// Whether the menu is active.
    pub active: bool,
    /// Current page.
    pub current_page: PageId,
    /// Index of the selected item.
    pub selected_index: u8,
    /// Scroll offset (for long lists).
    pub scroll_offset: i16,
    /// Target scroll offset (for the animation).
    pub target_scroll_offset: i16,
}

impl Default for MenuState {
    fn default() -> (r: Self)
        ensures
            !r.active,
            r.current_page == PageId::Home,
            r.selected_index == 0,
            r.scroll_offset == 0,
            r.target_scroll_offset == 0,
    {
        MenuState {
            active: false,
            current_page: PageId::Home,
            selected_index: 0,
            scroll_offset: 0,
            target_scroll_offset: 0,
        }
    }
}

/// SW1 position: row 0, column 3.
pub const SW1_ROW: u8 = 0;
pub const SW1_COL: u8 = 3;

/// Confirm key position: row 0, column 2.
pub const SELECT_ROW: u8 = 0;
pub const SELECT_COL: u8 = 2;

/// The encoder that drives the menu.
pub const ENCODER_ID: u8 = 0;

/// Hold threshold (ms): pressing SW1 this long enters the menu.
pub const HOLD_THRESHOLD_MS: u64 = 500;

/// Direction of an encoder step.
#[derive(Clone, Copy, Debug, PartialEq, Eq, Structural)]
pub enum EncoderDirection {
    Clockwise,
    CounterClockwise,
    Still,
}

/// A key or encoder event.
#[derive(Clone, Copy, Debug, PartialEq, Eq, Structural)]
pub enum KeyInput {
    Matrix { row: u8, col: u8, pressed: bool },
    Encoder { id: u8, direction: EncoderDirection, pressed: bool },
}

/// What the controller does in answer to an event.
#[derive(Clone, Copy, Debug, PartialEq, Eq, Structural)]
pub enum MenuAction {
    /// Nothing.
    Nothing,
    /// Send this input to the menu.
    Send(MenuInput),
    /// Tap SW1's key (press and release) to the host.
    TapKey,
}

/// Abstract state of the controller: whether the menu is active, whether the
/// current SW1 press already counted as a hold, and when SW1 was pressed
/// (while the hold is still undecided).
pub struct ControllerState {
    pub menu_active: bool,
    pub hold_activated: bool,
    pub pressed_at: Option<u64>,
}

/// The controller's answer to a key event, and its next state.
pub open spec fn spec_on_key(
    s: ControllerState,
    menu_active_now: Option<bool>,
    event: KeyInput,
    now_ms: u64,
) -> (ControllerState, MenuAction) {
    let active = match menu_active_now {
        Some(a) => a,
        None => s.menu_active,
    };
    let s1 = ControllerState { menu_active: active, ..s };
    match event {
        KeyInput::Matrix { row, col, pressed } => if row == SW1_ROW && col == SW1_COL {
            if pressed {
                (
                    ControllerState { pressed_at: Some(now_ms), hold_activated: false, ..s1 },
                    MenuAction::Nothing,
                )
            } else {
                let next = ControllerState { pressed_at: None, hold_activated: false, ..s1 };
                if s1.hold_activated {
                    (next, MenuAction::Nothing)
                } else if active {
                    (next, MenuAction::Send(MenuInput::Back))
                } else {
                    (next, MenuAction::TapKey)
                }
            }
        } else if row == SELECT_ROW && col == SELECT_COL && active && pressed {
            (s1, MenuAction::Send(MenuInput::Select))
        } else {
            (s1, MenuAction::Nothing)
        },
        KeyInput::Encoder { id, direction, pressed } => if id == ENCODER_ID && pressed && active {
            match direction {
                EncoderDirection::Clockwise => (s1, MenuAction::Send(MenuInput::ScrollDown)),
                EncoderDirection::CounterClockwise => (s1, MenuAction::Send(MenuInput::ScrollUp)),
                EncoderDirection::Still => (s1, MenuAction::Nothing),
            }
        } else {
            (s1, MenuAction::Nothing)
        },
    }
}

/// The controller's answer to the hold timer firing, and its next state.
pub open spec fn spec_on_hold_timeout(s: ControllerState) -> (ControllerState, MenuAction) {
    let next = ControllerState { hold_activated: true, pressed_at: None, ..s };
    if !s.menu_active {
        (next, MenuAction::Send(MenuInput::EnterMenu))
    } else {
        (next, MenuAction::Nothing)
    }
}

/// Menu controller: SW1 short press taps its key (or goes back, in the menu),
/// SW1 long press enters the menu; the confirm key selects and the encoder
/// scrolls while the menu is active.
pub struct MenuController {
    menu_active: bool,
    sw1_hold_activated: bool,
    sw1_pressed_at: Option<u64>,
}

impl MenuController {
    #[verifier::type_invariant]
    spec fn inv(self) -> bool {
        self.sw1_pressed_at matches Some(t) ==> t <= u64::MAX - HOLD_THRESHOLD_MS
    }

    /// The controller's abstract state.
    pub closed spec fn state(self) -> ControllerState {
        ControllerState {
            menu_active: self.menu_active,
            hold_activated: self.sw1_hold_activated,
            pressed_at: self.sw1_pressed_at,
        }
    }

    pub fn new() -> (r: Self)
        ensures
            r.state() == (ControllerState {
                menu_active: false,
                hold_activated: false,
                pressed_at: None,
            }),
    {
        Self { menu_active: false, sw1_hold_activated: false, sw1_pressed_at: None }
    }

    /// When the hold timer of the current SW1 press fires (milliseconds), if
    /// a press is still undecided.
    pub fn hold_deadline(&self) -> (r: Option<u64>)
        ensures
            r == (match self.state().pressed_at {
                Some(t) => Some((t + HOLD_THRESHOLD_MS) as u64),
                None => None,
            }),
    {
        proof {
            use_type_invariant(self);
        }
        match self.sw1_pressed_at {
            Some(t) => Some(t + HOLD_THRESHOLD_MS),
            None => None,
        }
    }

    /// Handle a key event at `now_ms`; `menu_active_now` is the latest menu
    /// state, if one was published.
    pub fn on_key_event(&mut self, menu_active_now: Option<bool>, event: KeyInput, now_ms: u64) -> (r:
        MenuAction)
        requires
            now_ms <= u64::MAX - HOLD_THRESHOLD_MS,
        ensures
            (final(self).state(), r) == spec_on_key(old(self).state(), menu_active_now, event, now_ms),
    {
        proof {
            use_type_invariant(&*self);
        }
        if let Some(active) = menu_active_now {
            self.menu_active = active;
        }
        match event {
            KeyInput::Matrix { row, col, pressed } => {
                if row == SW1_ROW && col == SW1_COL {
                    self.handle_sw1(pressed, now_ms)
                } else if row == SELECT_ROW && col == SELECT_COL {
                    if self.menu_active && pressed {
                        MenuAction::Send(MenuInput::Select)
                    } else {
                        MenuAction::Nothing
                    }
                } else {
                    MenuAction::Nothing
                }
            },
            KeyInput::Encoder { id, direction, pressed } => {
                if id != ENCODER_ID || !pressed {
                    return MenuAction::Nothing;
                }
                if self.menu_active {
                    match direction {
                        EncoderDirection::Clockwise => MenuAction::Send(MenuInput::ScrollDown),
                        EncoderDirection::CounterClockwise => MenuAction::Send(MenuInput::ScrollUp),
                        EncoderDirection::Still => MenuAction::Nothing,
                    }
                } else {
                    MenuAction::Nothing
                }
            },
        }
    }

    fn handle_sw1(&mut self, pressed: bool, now_ms: u64) -> (r: MenuAction)
        requires
            now_ms <= u64::MAX - HOLD_THRESHOLD_MS,
        ensures
            pressed ==> final(self).state() == (ControllerState {
                pressed_at: Some(now_ms),
                hold_activated: false,
                ..old(self).state()
            }) && r == MenuAction::Nothing,
            !pressed ==> final(self).state() == (ControllerState {
                pressed_at: None,
                hold_activated: false,
                ..old(self).state()
            }) && r == (if old(self).state().hold_activated {
                MenuAction::Nothing
            } else if old(self).state().menu_active {
                MenuAction::Send(MenuInput::Back)
            } else {
                MenuAction::TapKey
            }),
    {
        proof {
            use_type_invariant(&*self);
        }
        if pressed {
            self.sw1_pressed_at = Some(now_ms);
            self.sw1_hold_activated = false;
            return MenuAction::Nothing;
        }
        self.sw1_pressed_at = None;
        let was_hold = self.sw1_hold_activated;
        self.sw1_hold_activated = false;
        if was_hold {
            MenuAction::Nothing
        } else if self.menu_active {
            MenuAction::Send(MenuInput::Back)
        } else {
            MenuAction::TapKey
        }
    }

    /// The hold timer won the race against the release: a long press.
    pub fn on_hold_timeout(&mut self) -> (r: MenuAction)
        ensures
            (final(self).state(), r) == spec_on_hold_timeout(old(self).state()),
    {
        proof {
            use_type_invariant(&*self);
        }
        self.sw1_hold_activated = true;
        self.sw1_pressed_at = None;
        if !self.menu_active {
            MenuAction::Send(MenuInput::EnterMenu)
        } else {
            MenuAction::Nothing
        }
    }
}

/// A short press of SW1 (released before the hold timer fires) taps its key
/// to the host outside the menu, and goes back inside it.
pub proof fn lemma_short_press(s: ControllerState, active: Option<bool>, t0: u64, t1: u64)
    ensures
        ({
            let (s1, a1) = spec_on_key(s, active, KeyInput::Matrix { row: SW1_ROW, col: SW1_COL, pressed: true }, t0);
            let (s2, a2) = spec_on_key(s1, None, KeyInput::Matrix { row: SW1_ROW, col: SW1_COL, pressed: false }, t1);
            &&& a1 == MenuAction::Nothing
            &&& a2 == (if s1.menu_active {
                MenuAction::Send(MenuInput::Back)
            } else {
                MenuAction::TapKey
            })
            &&& s2.pressed_at is None
            &&& !s2.hold_activated
        }),
{
}

/// A long press of SW1 (the hold timer fires before the release) enters the
/// menu when it is not active, and its release does nothing.
pub proof fn lemma_long_press(s: ControllerState, active: Option<bool>, t0: u64, t1: u64)
    ensures
        ({
            let (s1, a1) = spec_on_key(s, active, KeyInput::Matrix { row: SW1_ROW, col: SW1_COL, pressed: true }, t0);
            let (s2, a2) = spec_on_hold_timeout(s1);
            let (s3, a3) = spec_on_key(s2, None, KeyInput::Matrix { row: SW1_ROW, col: SW1_COL, pressed: false }, t1);
            &&& a1 == MenuAction::Nothing
            &&& a2 == (if s1.menu_active {
                MenuAction::Nothing
            } else {
                MenuAction::Send(MenuInput::EnterMenu)
            })
            &&& a3 == MenuAction::Nothing
            &&& s3.pressed_at is None
            &&& !s3.hold_activated
        }),
{
}

/// One select per click: releasing the confirm key (row 0, column 2) never
/// acts, and pressing it selects exactly when the menu is active (as last
/// published, else as last known). The key leaves SW1's press state alone.
pub proof fn lemma_confirm_key_selects_once(
    s: ControllerState,
    menu_active_now: Option<bool>,
    pressed: bool,
    now_ms: u64,
)
    ensures
        ({
            let (next, action) = spec_on_key(
                s,
                menu_active_now,
                KeyInput::Matrix { row: 0, col: 2, pressed },
                now_ms,
            );
            let active = match menu_active_now {
                Some(a) => a,
                None => s.menu_active,
            };
            &&& !pressed ==> action == MenuAction::Nothing
            &&& pressed && active ==> action == MenuAction::Send(MenuInput::Select)
            &&& pressed && !active ==> action == MenuAction::Nothing
            &&& next.menu_active == active
            &&& next.hold_activated == s.hold_activated
            &&& next.pressed_at == s.pressed_at
        }),
{
}

/// The encoder (id 0) scrolls only on a step while the menu is active:
/// clockwise scrolls down, counter-clockwise up; nothing else scrolls.
pub proof fn lemma_encoder_scrolls(
    s: ControllerState,
    menu_active_now: Option<bool>,
    id: u8,
    direction: EncoderDirection,
    pressed: bool,
    now_ms: u64,
)
    ensures
        ({
            let action = spec_on_key(
                s,
                menu_active_now,
                KeyInput::Encoder { id, direction, pressed },
                now_ms,
            ).1;
            let active = match menu_active_now {
                Some(a) => a,
                None => s.menu_active,
            };
            &&& (action == MenuAction::Send(MenuInput::ScrollDown)) == (id == 0 && pressed && active
                && direction == EncoderDirection::Clockwise)
            &&& (action == MenuAction::Send(MenuInput::ScrollUp)) == (id == 0 && pressed && active
                && direction == EncoderDirection::CounterClockwise)
            &&& (action == MenuAction::Nothing) == !(id == 0 && pressed && active && direction
                != EncoderDirection::Still)
        }),
{
}

} // verus!
