//! Decisions of the display loop: contrast from brightness, how menu inputs
//! act on the screen and the menu, the menu idle timeout, the frame rate, and
//! which data channel slot is shown.

use crate::firmware::data_channel::{DisplayDataCache, DISPLAY_SLOTS};
use crate::firmware::menu::{MenuInput, MenuState, PageId};
use crate::firmware::settings::keys;
use crate::firmware::wououi::WououiInput;
use crate::proto::PadConfig;
use vstd::prelude::*;

verus! {

/// Contrast at brightness 0.
pub const MIN_CONTRAST: u16 = 5;

/// SH1107 contrast register value for a brightness percentage: from
/// `MIN_CONTRAST` at 0% to 255 at 100%.
pub fn brightness_to_contrast(brightness: u8) -> (r: u8)
    ensures
        r == (MIN_CONTRAST + brightness * (255 - MIN_CONTRAST) / 100) as u8,
{
    let b = brightness as u16;
    assert(b * 250 <= 63750) by (nonlinear_arith)
        requires
            b <= 255,
    ;
    (MIN_CONTRAST + b * 250 / 100) as u8
}

/// The menu library input for a menu input; entering and leaving the menu are
/// handled by the display loop itself.
pub fn menu_input_to_wououi(input: MenuInput) -> (r: Option<WououiInput>)
    ensures
        r == (match input {
            MenuInput::ScrollUp => Some(WououiInput::Up),
            MenuInput::ScrollDown => Some(WououiInput::Down),
            MenuInput::Select => Some(WououiInput::Click),
            MenuInput::Back => Some(WououiInput::Return),
            MenuInput::EnterMenu => None::<WououiInput>,
            MenuInput::ExitMenu => None::<WououiInput>,
        }),
{
    match input {
        MenuInput::ScrollUp => Some(WououiInput::Up),
        MenuInput::ScrollDown => Some(WououiInput::Down),
        MenuInput::Select => Some(WououiInput::Click),
        MenuInput::Back => Some(WououiInput::Return),
        MenuInput::EnterMenu => None,
        MenuInput::ExitMenu => None,
    }
}

/// Menu frame interval (ms).
pub const MENU_FRAME_MS: u16 = 8;

/// Menu frames without input before the menu closes (30 s).
pub const MENU_TIMEOUT_TICKS: u16 = (1000 / MENU_FRAME_MS) * 30;

/// What a menu input makes the display loop do.
#[derive(Clone, Copy, Debug, PartialEq, Eq, Structural)]
pub enum InputAction {
    /// Turn the screen on (the input is consumed); open the menu too when asked.
    Wake { enter_menu: bool },
    /// Open the menu.
    EnterMenu,
    /// Close the menu.
    ExitMenu,
    /// Pass this input to the menu library.
    ToMenu(WououiInput),
    /// Nothing.
    Ignore,
}

/// Screen and menu state of the display loop.
pub struct ScreenState {
    screen_on: bool,
    menu_active: bool,
    menu_idle_ticks: u16,
}

impl ScreenState {
    #[verifier::type_invariant]
    spec fn inv(self) -> bool {
        self.menu_active ==> self.menu_idle_ticks <= MENU_TIMEOUT_TICKS
    }

    /// Whether the screen is on.
    pub closed spec fn spec_screen_on(self) -> bool {
        self.screen_on
    }

    /// Whether the menu is open.
    pub closed spec fn spec_menu_active(self) -> bool {
        self.menu_active
    }

    /// Menu frames since the last input.
    pub closed spec fn spec_idle_ticks(self) -> u16 {
        self.menu_idle_ticks
    }

    /// Screen on, menu closed.
    pub fn new() -> (r: Self)
        ensures
            r.spec_screen_on(),
            !r.spec_menu_active(),
            r.spec_idle_ticks() == 0,
    {
        Self { screen_on: true, menu_active: false, menu_idle_ticks: 0 }
    }

    pub fn screen_on(&self) -> (r: bool)
        ensures
            r == self.spec_screen_on(),
    {
        self.screen_on
    }

    pub fn menu_active(&self) -> (r: bool)
        ensures
            r == self.spec_menu_active(),
    {
        self.menu_active
    }

    /// Handle a menu input. While the screen is off, any input only wakes it
    /// (a long press opens the menu too when the quick menu is enabled).
    /// Otherwise the idle count restarts and the input opens or closes the
    /// menu or goes to it: Back on the menu's home page closes the menu.
    pub fn on_menu_input(&mut self, input: MenuInput, quick_menu_enabled: bool, on_home_page: bool) -> (r:
        InputAction)
        ensures
            !old(self).spec_screen_on() ==> ({
                let quick = input == MenuInput::EnterMenu && quick_menu_enabled;
                &&& r == InputAction::Wake { enter_menu: quick }
                &&& final(self).spec_screen_on()
                &&& final(self).spec_menu_active() == (old(self).spec_menu_active() || quick)
                &&& quick ==> final(self).spec_idle_ticks() == 0
                &&& !quick ==> final(self).spec_idle_ticks() == old(self).spec_idle_ticks()
            }),
            old(self).spec_screen_on() ==> ({
                let active = old(self).spec_menu_active();
                &&& final(self).spec_screen_on()
                &&& final(self).spec_idle_ticks() == 0
                &&& match input {
                    MenuInput::EnterMenu => if active {
                        r == InputAction::Ignore && final(self).spec_menu_active()
                    } else {
                        r == InputAction::EnterMenu && final(self).spec_menu_active()
                    },
                    MenuInput::ExitMenu => r == (if active {
                        InputAction::ExitMenu
                    } else {
                        InputAction::Ignore
                    }) && !final(self).spec_menu_active(),
                    MenuInput::Back => if !active {
                        r == InputAction::Ignore && !final(self).spec_menu_active()
                    } else if on_home_page {
                        r == InputAction::ExitMenu && !final(self).spec_menu_active()
                    } else {
                        r == InputAction::ToMenu(WououiInput::Return) && final(self).spec_menu_active()
                    },
                    MenuInput::ScrollUp => r == (if active {
                        InputAction::ToMenu(WououiInput::Up)
                    } else {
                        InputAction::Ignore
                    }) && final(self).spec_menu_active() == active,
                    MenuInput::ScrollDown => r == (if active {
                        InputAction::ToMenu(WououiInput::Down)
                    } else {
                        InputAction::Ignore
                    }) && final(self).spec_menu_active() == active,
                    MenuInput::Select => r == (if active {
                        InputAction::ToMenu(WououiInput::Click)
                    } else {
                        InputAction::Ignore
                    }) && final(self).spec_menu_active() == active,
                }
            }),
    {
        proof {
            use_type_invariant(&*self);
        }
        if !self.screen_on {
            let quick = input == MenuInput::EnterMenu && quick_menu_enabled;
            self.screen_on = true;
            if quick {
                self.menu_idle_ticks = 0;
                self.menu_active = true;
            }
            return InputAction::Wake { enter_menu: quick };
        }
        self.menu_idle_ticks = 0;
        match input {
            MenuInput::EnterMenu => {
                if !self.menu_active {
                    self.menu_active = true;
                    InputAction::EnterMenu
                } else {
                    InputAction::Ignore
                }
            },
            MenuInput::ExitMenu => {
                if self.menu_active {
                    self.menu_active = false;
                    InputAction::ExitMenu
                } else {
                    InputAction::Ignore
                }
            },
            MenuInput::Back => {
                if self.menu_active {
                    if on_home_page {
                        self.menu_active = false;
                        InputAction::ExitMenu
                    } else {
                        InputAction::ToMenu(WououiInput::Return)
                    }
                } else {
                    InputAction::Ignore
                }
            },
            _ => {
                if self.menu_active {
                    match menu_input_to_wououi(input) {
                        Some(w) => InputAction::ToMenu(w),
                        None => InputAction::Ignore,
                    }
                } else {
                    InputAction::Ignore
                }
            },
        }
    }

    /// A data channel command arrived: it wakes the screen. Returns whether
    /// the screen was off.
    pub fn on_data_received(&mut self) -> (r: bool)
        ensures
            r == !old(self).spec_screen_on(),
            final(self).spec_screen_on(),
            final(self).spec_menu_active() == old(self).spec_menu_active(),
            final(self).spec_idle_ticks() == old(self).spec_idle_ticks(),
    {
        proof {
            use_type_invariant(&*self);
        }
        let was_off = !self.screen_on;
        self.screen_on = true;
        was_off
    }

    /// One more menu frame without input; after `MENU_TIMEOUT_TICKS` of them
    /// the menu closes. Returns whether it closed.
    pub fn on_menu_frame(&mut self) -> (r: bool)
        requires
            old(self).spec_menu_active(),
        ensures
            final(self).spec_idle_ticks() == old(self).spec_idle_ticks() + 1,
            r == (old(self).spec_idle_ticks() + 1 > MENU_TIMEOUT_TICKS),
            final(self).spec_menu_active() == !r,
            final(self).spec_screen_on() == old(self).spec_screen_on(),
    {
        proof {
            use_type_invariant(&*self);
        }
        let ticks = self.menu_idle_ticks + 1;
        if ticks > MENU_TIMEOUT_TICKS {
            self.menu_active = false;
            self.menu_idle_ticks = ticks;
            true
        } else {
            self.menu_idle_ticks = ticks;
            false
        }
    }

    /// Close the menu (on a request of the menu library).
    pub fn close_menu(&mut self)
        ensures
            !final(self).spec_menu_active(),
            final(self).spec_screen_on() == old(self).spec_screen_on(),
            final(self).spec_idle_ticks() == old(self).spec_idle_ticks(),
    {
        self.menu_active = false;
    }

    /// Turn the screen off (after the inactivity timeout).
    pub fn screen_off(&mut self)
        ensures
            !final(self).spec_screen_on(),
            final(self).spec_menu_active() == old(self).spec_menu_active(),
            final(self).spec_idle_ticks() == old(self).spec_idle_ticks(),
    {
        proof {
            use_type_invariant(&*self);
        }
        self.screen_on = false;
    }

    /// Delay before the next frame (ms): 200 with the screen off, one menu
    /// frame in the menu, one second on the home page.
    pub fn frame_delay_ms(&self) -> (r: u64)
        ensures
            r == (if !self.spec_screen_on() {
                200
            } else if self.spec_menu_active() {
                MENU_FRAME_MS as u64
            } else {
                1000
            }),
    {
        if !self.screen_on {
            200
        } else if self.menu_active {
            MENU_FRAME_MS as u64
        } else {
            1000
        }
    }
}

/// Frame time passed to menu animations, kept within 1..=50 ms.
pub fn clamp_frame_elapsed(elapsed_ms: u16) -> (r: u16)
    ensures
        r == (if elapsed_ms < 1 {
            1
        } else if elapsed_ms > 50 {
            50
        } else {
            elapsed_ms
        }),
{
    if elapsed_ms < 1 {
        1
    } else if elapsed_ms > 50 {
        50
    } else {
        elapsed_ms
    }
}

/// The screen sleeps once `elapsed_ms` since the last activity reach the
/// timeout.
pub fn screen_timed_out(elapsed_ms: u64, timeout_secs: u8) -> (r: bool)
    ensures
        r == (elapsed_ms >= timeout_secs * 1000),
{
    elapsed_ms >= timeout_secs as u64 * 1000
}

/// The menu state broadcast when the menu opens or closes.
pub fn menu_state_for(active: bool) -> (r: MenuState)
    ensures
        r.active == active,
        r.current_page == (if active {
            PageId::MainMenu
        } else {
            PageId::Home
        }),
        r.selected_index == 0,
        r.scroll_offset == 0,
        r.target_scroll_offset == 0,
{
    MenuState {
        active,
        current_page: if active {
            PageId::MainMenu
        } else {
            PageId::Home
        },
        selected_index: 0,
        scroll_offset: 0,
        target_scroll_offset: 0,
    }
}

/// The data channel configuration reported to the host: the active pad, and
/// its enabled functions when its data channel is on (none otherwise).
pub fn data_channel_config(active_pad: u8, dc_enabled: bool, functions: u16) -> (r: PadConfig)
    ensures
        r.active_pad == active_pad,
        r.enabled_functions == (if dc_enabled {
            functions
        } else {
            0
        }),
{
    PadConfig {
        active_pad,
        enabled_functions: if dc_enabled {
            functions
        } else {
            0
        },
    }
}

/// The slot `k` steps after `current`, cyclically.
pub open spec fn slot_after(current: u8, k: int) -> int {
    (current + k) % (DISPLAY_SLOTS as int)
}

/// The first `k` in `1..=n` whose slot after `current` holds data, or `n + 1`.
pub open spec fn first_occupied_step(slots: Seq<bool>, current: u8, k: int, n: int) -> int
    decreases n + 1 - k,
{
    if k > n {
        n + 1
    } else if slots[slot_after(current, k)] {
        k
    } else {
        first_occupied_step(slots, current, k + 1, n)
    }
}

/// Which slots of the cache hold data.
pub open spec fn occupied(cache: DisplayDataCache) -> Seq<bool> {
    Seq::new(DISPLAY_SLOTS as nat, |i: int| cache.slots@[i] is Some)
}

/// The slot shown next when rotating: the first slot after `current`
/// (cyclically) that holds data; `current` itself when none does.
pub fn next_rotation_slot(cache: &DisplayDataCache, current: u8) -> (r: u8)
    requires
        current < DISPLAY_SLOTS,
    ensures
        r == slot_after(current, first_occupied_step(occupied(*cache), current, 1, 8) % 9),
        r < DISPLAY_SLOTS,
{
    let ghost occ = occupied(*cache);
    let mut slot = current;
    let mut k: usize = 0;
    while k < DISPLAY_SLOTS
        invariant_except_break
            k <= DISPLAY_SLOTS,
            current < DISPLAY_SLOTS,
            occ == occupied(*cache),
            slot == slot_after(current, k as int),
            first_occupied_step(occ, current, 1, 8) == first_occupied_step(occ, current, k + 1, 8),
        ensures
            slot == slot_after(current, first_occupied_step(occ, current, 1, 8) % 9),
        decreases DISPLAY_SLOTS - k,
    {
        slot = (slot + 1) % 8;
        k = k + 1;
        assert(slot == slot_after(current, k as int));
        if cache.slots[slot as usize].is_some() {
            assert(occ[slot_after(current, k as int)]);
            break;
        }
    }
    slot
}

/// The slot to show: `current` when it holds data, else the first slot that
/// does (or `current` when none does).
pub fn valid_slot(cache: &DisplayDataCache, current: u8) -> (r: u8)
    requires
        current < DISPLAY_SLOTS,
    ensures
        cache.slots@[current as int] is Some ==> r == current,
        cache.slots@[current as int] is None ==> (r == current && forall|i: int|
            0 <= i < DISPLAY_SLOTS ==> cache.slots@[i] is None) || (r < DISPLAY_SLOTS
            && cache.slots@[r as int] is Some && forall|i: int|
            0 <= i < r ==> cache.slots@[i] is None),
{
    if cache.slots[current as usize].is_some() {
        return current;
    }
    let mut i: u8 = 0;
    while i < 8
        invariant
            i <= 8,
            current < 8,
            cache.slots@[current as int] is None,
            forall|j: int| 0 <= j < i ==> cache.slots@[j] is None,
        decreases 8 - i,
    {
        if cache.slots[i as usize].is_some() {
            return i;
        }
        i = i + 1;
    }
    current
}

/// Least time between two contrast writes while the brightness slider moves (ms).
pub const CONTRAST_MIN_INTERVAL_MS: u64 = 100;

/// Time each data channel slot stays on screen when several hold data (ms).
pub const DC_ROTATION_INTERVAL_MS: u64 = 4000;

/// Number of pads, each with its own data channel functions.
pub const PAD_COUNT: usize = 5;

/// The slot rotation advances when more than one slot holds data and the
/// current one has been shown for the rotation interval.
pub fn rotation_due(active_slots: u8, elapsed_ms: u64) -> (r: bool)
    ensures
        r == (active_slots > 1 && elapsed_ms >= DC_ROTATION_INTERVAL_MS),
{
    active_slots > 1 && elapsed_ms >= DC_ROTATION_INTERVAL_MS
}

/// What the menu shows now, read once per menu frame.
#[derive(Clone, Copy, Debug)]
pub struct MenuReadings {
    /// The pad chosen in the menu.
    pub selected_pad: u8,
    /// The brightness slider's value while it moves.
    pub live_brightness: u8,
    /// The confirmed brightness.
    pub brightness: u8,
    /// The confirmed screen timeout (seconds).
    pub screen_timeout: u8,
    /// Whether long-pressing ESC opens the menu with the screen off.
    pub quick_menu: bool,
    /// The BLE switch.
    pub ble_enabled: bool,
    /// The user (BLE profile) chosen in the menu.
    pub selected_user: u8,
    /// Whether the selected pad has its data channel on.
    pub pad_dc_enabled: bool,
    /// The data channel functions of the selected pad.
    pub pad_functions: u16,
    /// The data channel functions of every pad.
    pub dc_functions: [u16; 5],
    /// Whether the menu is on its home page.
    pub on_home: bool,
    /// The time of the reading (ms, monotonic).
    pub now_ms: u64,
}

/// What the display loop last acted on for each menu setting.
#[derive(Clone, Copy, Debug)]
pub struct MenuSync {
    /// The active pad (keyboard layer).
    pub pad: u8,
    /// The brightness whose contrast was last written.
    pub live_brightness: u8,
    /// When the contrast was last written (ms).
    pub last_contrast_ms: u64,
    /// The brightness last saved.
    pub brightness: u8,
    /// The screen timeout last saved, which the home screen uses (seconds).
    pub screen_timeout: u8,
    /// The quick menu setting last saved.
    pub quick_menu: bool,
    /// The BLE switch last seen.
    pub ble_enabled: bool,
    /// The active user (BLE profile).
    pub user: u8,
    /// The data channel configuration last reported to the host.
    pub dc_config: PadConfig,
    /// Whether the menu was on its home page at the last reading.
    pub on_home: bool,
    /// The data channel functions of every pad last saved.
    pub dc_functions: [u16; 5],
}

/// What one menu frame asks of the display loop.
#[derive(Debug)]
pub struct MenuEffects {
    /// Switch the keyboard to this layer and announce its mode.
    pub switch_pad: Option<u8>,
    /// Write this contrast to the screen.
    pub contrast: Option<u8>,
    /// Settings to save, as (key, value), in this order.
    pub writes: Vec<(u8, u8)>,
    /// Switch to this BLE profile.
    pub ble_profile: Option<u8>,
    /// Report this data channel configuration to the host.
    pub config: Option<PadConfig>,
}

/// The configuration reported for the readings: the selected pad, and its
/// functions when its data channel is on.
pub open spec fn reading_config(r: MenuReadings) -> PadConfig {
    PadConfig {
        active_pad: r.selected_pad,
        enabled_functions: if r.pad_dc_enabled {
            r.pad_functions
        } else {
            0
        },
    }
}

/// Whether the contrast follows the slider at this reading: it moved, and the
/// last write is at least the minimum interval old.
pub open spec fn contrast_due(s: MenuSync, r: MenuReadings) -> bool {
    r.live_brightness != s.live_brightness && r.now_ms - s.last_contrast_ms
        >= CONTRAST_MIN_INTERVAL_MS
}

/// Saves of the first `n` pads' data channel functions that changed from
/// `saved` to `now`; a pad's key is `DC_FUNCTIONS_PAD0 + pad`, its value the
/// low byte of the mask.
pub open spec fn dc_function_writes(saved: Seq<u16>, now: Seq<u16>, n: int) -> Seq<(u8, u8)>
    decreases n,
{
    if n <= 0 {
        seq![]
    } else {
        dc_function_writes(saved, now, n - 1) + if now[n - 1] != saved[n - 1] {
            seq![((keys::DC_FUNCTIONS_PAD0 + n - 1) as u8, now[n - 1] as u8)]
        } else {
            seq![]
        }
    }
}

/// A one-element save when `changed`, none otherwise.
pub open spec fn write_if(changed: bool, key: u8, value: u8) -> Seq<(u8, u8)> {
    if changed {
        seq![(key, value)]
    } else {
        seq![]
    }
}

/// The saves of one reading: brightness, screen timeout and quick menu when
/// their confirmed values changed, then each pad's changed data channel
/// functions when the menu has just come back to its home page.
pub open spec fn settings_writes(s: MenuSync, r: MenuReadings) -> Seq<(u8, u8)> {
    write_if(r.brightness != s.brightness, keys::BRIGHTNESS, r.brightness) + write_if(
        r.screen_timeout != s.screen_timeout,
        keys::SCREEN_TIMEOUT,
        r.screen_timeout,
    ) + write_if(
        r.quick_menu != s.quick_menu,
        keys::QUICK_MENU,
        if r.quick_menu {
            1u8
        } else {
            0u8
        },
    ) + if r.on_home && !s.on_home {
        dc_function_writes(s.dc_functions@, r.dc_functions@, PAD_COUNT as int)
    } else {
        seq![]
    }
}

/// The state after one reading.
pub open spec fn synced(s: MenuSync, r: MenuReadings) -> MenuSync {
    MenuSync {
        pad: r.selected_pad,
        live_brightness: if contrast_due(s, r) {
            r.live_brightness
        } else {
            s.live_brightness
        },
        last_contrast_ms: if contrast_due(s, r) {
            r.now_ms
        } else {
            s.last_contrast_ms
        },
        brightness: r.brightness,
        screen_timeout: r.screen_timeout,
        quick_menu: r.quick_menu,
        ble_enabled: r.ble_enabled,
        user: r.selected_user,
        dc_config: reading_config(r),
        on_home: r.on_home,
        dc_functions: if r.on_home && !s.on_home {
            r.dc_functions
        } else {
            s.dc_functions
        },
    }
}

impl MenuSync {
    /// The state at start-up, from the saved settings: pad 0, user 0, BLE
    /// on, the menu on its home page, and no configuration reported yet.
    pub fn new(brightness: u8, screen_timeout: u8, quick_menu: bool, dc_functions: [u16; 5], now_ms: u64) -> (r: Self)
        ensures
            r.pad == 0,
            r.live_brightness == brightness,
            r.last_contrast_ms == now_ms,
            r.brightness == brightness,
            r.screen_timeout == screen_timeout,
            r.quick_menu == quick_menu,
            r.ble_enabled,
            r.user == 0,
            r.dc_config == (PadConfig { active_pad: 0xFF, enabled_functions: 0xFFFF }),
            r.on_home,
            r.dc_functions == dc_functions,
    {
        MenuSync {
            pad: 0,
            live_brightness: brightness,
            last_contrast_ms: now_ms,
            brightness,
            screen_timeout,
            quick_menu,
            ble_enabled: true,
            user: 0,
            dc_config: PadConfig { active_pad: 0xFF, enabled_functions: 0xFFFF },
            on_home: true,
            dc_functions,
        }
    }

    /// Act on one menu frame's readings: switch pad or user when the menu's
    /// choice differs, follow the brightness slider at most once per
    /// `CONTRAST_MIN_INTERVAL_MS`, save confirmed settings that changed
    /// (the pads' functions only on coming back to the menu's home page),
    /// and report the data channel configuration when it changed.
    pub fn update(&mut self, r: &MenuReadings) -> (e: MenuEffects)
        requires
            old(self).last_contrast_ms <= r.now_ms,
        ensures
            *final(self) == synced(*old(self), *r),
            e.switch_pad == (if r.selected_pad != old(self).pad {
                Some(r.selected_pad)
            } else {
                None
            }),
            e.contrast == (if contrast_due(*old(self), *r) {
                Some((MIN_CONTRAST + r.live_brightness * (255 - MIN_CONTRAST) / 100) as u8)
            } else {
                None
            }),
            e.writes@ == settings_writes(*old(self), *r),
            e.ble_profile == (if r.selected_user != old(self).user {
                Some(r.selected_user)
            } else {
                None
            }),
            e.config == (if reading_config(*r) != old(self).dc_config {
                Some(reading_config(*r))
            } else {
                None
            }),
    {
        let switch_pad = if r.selected_pad != self.pad {
            Some(r.selected_pad)
        } else {
            None
        };
        self.pad = r.selected_pad;

        let mut contrast = None;
        if r.live_brightness != self.live_brightness && r.now_ms - self.last_contrast_ms
            >= CONTRAST_MIN_INTERVAL_MS {
            self.live_brightness = r.live_brightness;
            self.last_contrast_ms = r.now_ms;
            contrast = Some(brightness_to_contrast(r.live_brightness));
        }

        let mut writes: Vec<(u8, u8)> = Vec::new();
        if r.brightness != self.brightness {
            self.brightness = r.brightness;
            writes.push((keys::BRIGHTNESS, r.brightness));
        }
        if r.screen_timeout != self.screen_timeout {
            self.screen_timeout = r.screen_timeout;
            writes.push((keys::SCREEN_TIMEOUT, r.screen_timeout));
        }
        if r.quick_menu != self.quick_menu {
            self.quick_menu = r.quick_menu;
            writes.push(
                (
                    keys::QUICK_MENU,
                    if r.quick_menu {
                        1
                    } else {
                        0
                    },
                ),
            );
        }

        self.ble_enabled = r.ble_enabled;

        let ble_profile = if r.selected_user != self.user {
            Some(r.selected_user)
        } else {
            None
        };
        self.user = r.selected_user;

        let cfg = data_channel_config(r.selected_pad, r.pad_dc_enabled, r.pad_functions);
        let config = if cfg != self.dc_config {
            Some(cfg)
        } else {
            None
        };
        self.dc_config = cfg;

        if r.on_home && !self.on_home {
            let ghost prefix = writes@;
            let mut pad: usize = 0;
            while pad < PAD_COUNT
                invariant
                    pad <= PAD_COUNT,
                    writes@ == prefix + dc_function_writes(self.dc_functions@, r.dc_functions@, pad as int),
                decreases PAD_COUNT - pad,
            {
                let funcs = r.dc_functions[pad];
                if funcs != self.dc_functions[pad] {
                    writes.push((keys::DC_FUNCTIONS_PAD0 + pad as u8, funcs as u8));
                }
                pad = pad + 1;
                assert(writes@ =~= prefix + dc_function_writes(self.dc_functions@, r.dc_functions@, pad as int));
            }
            self.dc_functions = r.dc_functions;
        }
        self.on_home = r.on_home;

        MenuEffects { switch_pad, contrast, writes, ble_profile, config }
    }
}

/// Settings are saved only on change: after an update, the same readings
/// again ask for no pad or user switch (the state holds the readings' pad,
/// user and configuration) and no save.
pub proof fn lemma_menu_sync_settles(s: MenuSync, r: MenuReadings)
    ensures
        synced(s, r).pad == r.selected_pad,
        synced(s, r).user == r.selected_user,
        settings_writes(synced(s, r), r) == Seq::<(u8, u8)>::empty(),
        synced(s, r).dc_config == reading_config(r),
{
    assert(settings_writes(synced(s, r), r) =~= Seq::<(u8, u8)>::empty());
}

/// The configuration reported to the host names the selected pad, and its
/// functions only when that pad's data channel is on: a pad whose data
/// channel is off reports no functions. After an update the state holds it.
pub proof fn lemma_reported_config(s: MenuSync, r: MenuReadings)
    ensures
        reading_config(r).active_pad == r.selected_pad,
        !r.pad_dc_enabled ==> reading_config(r).enabled_functions == 0,
        r.pad_dc_enabled ==> reading_config(r).enabled_functions == r.pad_functions,
        synced(s, r).dc_config == reading_config(r),
{
}

} // verus!
