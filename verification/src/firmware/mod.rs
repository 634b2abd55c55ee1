//! Pure logic of the keypad firmware: layer modes, battery estimation, text
//! formatting, the flash settings log, data channel parsing and the menu and
//! display state.

pub mod battery;
pub mod board;
pub mod data_channel;
pub mod display;
pub mod flash;
pub mod flash_settings;
pub mod format;
pub mod menu;
pub mod mode;
pub mod render;
pub mod settings;
pub mod sh1107;
pub mod wououi;
