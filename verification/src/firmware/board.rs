//! Board-level hardware constants of the K9-Pad (nRF52840 E73).

use vstd::prelude::*;

verus! {

/// GPIO port 0 base address.
pub const P0_BASE: u32 = 0x5000_0000;

/// GPIO port 1 base address.
pub const P1_BASE: u32 = 0x5000_0300;

/// I2C SDA port and pin (P0.08).
pub const I2C_SDA_PORT: u32 = P0_BASE;
pub const I2C_SDA_PIN: u8 = 8;

/// I2C SCL port and pin (P1.09).
pub const I2C_SCL_PORT: u32 = P1_BASE;
pub const I2C_SCL_PIN: u8 = 9;

/// OLED power switch port and pin (P0.05).
pub const OLED_POWER_PORT: u32 = P0_BASE;
pub const OLED_POWER_PIN: u8 = 5;

/// TP4054 charge detect port and pin (P0.07, active low).
pub const CHARGE_DET_PORT: u32 = P0_BASE;
pub const CHARGE_DET_PIN: u8 = 7;

/// Battery ADC input: AIN6 = P0.30.
pub const BATTERY_ADC_AIN: u8 = 6;

/// VBAT = raw * RAW_TO_MV_NUM / RAW_TO_MV_DEN (820k/2M divider, gain 1/6, 0.6 V ref, 12 bit).
pub const BATTERY_RAW_TO_MV_NUM: u32 = 1269;
pub const BATTERY_RAW_TO_MV_DEN: u32 = 1024;

/// Number of ADC samples averaged per battery reading.
pub const BATTERY_SAMPLE_COUNT: u32 = 4;

pub const DISPLAY_I2C_ADDR: u8 = 0x3C;
pub const DISPLAY_WIDTH: u32 = 128;
pub const DISPLAY_HEIGHT: u32 = 64;

/// Flash settings page.
pub const SETTINGS_PAGE_ADDR: u32 = 0x000F_3000;
pub const SETTINGS_PAGE_SIZE: usize = 4096;


/// Offset of the `PIN_CNF[0]` register from a GPIO port's base.
pub const PIN_CNF_OFFSET: u32 = 0x700;

/// Offset of the `OUTSET` register from a GPIO port's base.
pub const OUTSET_OFFSET: u32 = 0x508;

/// Offset of the `IN` register from a GPIO port's base.
pub const IN_OFFSET: u32 = 0x510;

/// `PIN_CNF` bits that enable the pull-up (`PULL` = 3).
pub const PIN_PULLUP_BITS: u32 = 0x0000_000C;

/// `PIN_CNF` value of an input with pull-up and connected input buffer.
pub const PIN_INPUT_PULLUP: u32 = 0x0000_000C;

/// `PIN_CNF` value of an output (`DIR` = 1, input buffer disconnected).
pub const PIN_OUTPUT: u32 = 0x0000_0003;

/// Address of the `PIN_CNF` register of pin `pin` of the port at `port_base`.
pub fn pin_cnf_addr(port_base: u32, pin: u8) -> (r: u32)
    requires
        pin < 32,
        port_base + PIN_CNF_OFFSET + 4 * 31 <= u32::MAX,
    ensures
        r == port_base + PIN_CNF_OFFSET + 4 * pin,
{
    port_base + PIN_CNF_OFFSET + pin as u32 * 4
}

/// The register bit of pin `pin`.
pub fn pin_mask(pin: u8) -> (r: u32)
    requires
        pin < 32,
    ensures
        r == 1u32 << pin,
{
    1u32 << pin
}

/// Whether pin `pin` reads high in a port's `IN` register value.
pub fn pin_level(state: u32, pin: u8) -> (r: bool)
    requires
        pin < 32,
    ensures
        r == ((state >> pin) & 1u32 == 1u32),
{
    let r = (state & (1u32 << pin)) != 0;
    assert(((state & (1u32 << pin)) != 0u32) == ((state >> pin) & 1u32 == 1u32)) by (bit_vector)
        requires
            pin < 32,
    ;
    r
}

} // verus!
