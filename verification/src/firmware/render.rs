//! Home screen layout: what the keypad draws on its 128x64 screen, as a list
//! of drawing operations (text, lines, outlined and filled rectangles).
//!
//! The operations are plain values; the display driver draws them.

use crate::firmware::data_channel::{
    count_some, display_text_as_str, display_text_chars, DisplayDataCache, DisplaySlotData,
    DISPLAY_SLOTS,
};
use crate::firmware::format::{format_i32, format_progress, percent_text};
use crate::text::decimal_text;
use vstd::prelude::*;

verus! {

/// Fonts of the home screen.
#[derive(Debug, Clone, Copy, PartialEq, Eq, Structural)]
pub enum Font {
    /// 6x10 pixel glyphs, for the status bar and the slot content.
    Small,
    /// 9x15 pixel bold glyphs, for the layer name.
    LargeBold,
}

/// One drawing operation. Lines and outlines are one pixel wide.
#[derive(Debug)]
pub enum DrawOp {
    /// Turn every pixel off.
    Clear,
    /// Text whose baseline starts at `(x, y)`, or is centred on `x`.
    Text { text: String, x: i32, y: i32, font: Font, centered: bool },
    /// A line between two points.
    Line { x0: i32, y0: i32, x1: i32, y1: i32 },
    /// The outline of a `w` by `h` rectangle with its top-left corner at `(x, y)`.
    Frame { x: i32, y: i32, w: u32, h: u32 },
    /// A filled `w` by `h` rectangle with its top-left corner at `(x, y)`.
    Fill { x: i32, y: i32, w: u32, h: u32 },
}

/// A drawing operation as a mathematical value.
pub enum Shape {
    Clear,
    Text(Seq<char>, i32, i32, Font, bool),
    Line(i32, i32, i32, i32),
    Frame(i32, i32, u32, u32),
    Fill(i32, i32, u32, u32),
}

impl View for DrawOp {
    type V = Shape;

    open spec fn view(&self) -> Shape {
        match self {
            DrawOp::Clear => Shape::Clear,
            DrawOp::Text { text, x, y, font, centered } => Shape::Text(
                text@,
                *x,
                *y,
                *font,
                *centered,
            ),
            DrawOp::Line { x0, y0, x1, y1 } => Shape::Line(*x0, *y0, *x1, *y1),
            DrawOp::Frame { x, y, w, h } => Shape::Frame(*x, *y, *w, *h),
            DrawOp::Fill { x, y, w, h } => Shape::Fill(*x, *y, *w, *h),
        }
    }
}

/// The shapes a list of operations draws, in order.
pub open spec fn shapes(ops: Seq<DrawOp>) -> Seq<Shape> {
    ops.map_values(|o: DrawOp| o@)
}

proof fn lemma_shapes_push(ops: Seq<DrawOp>, o: DrawOp)
    ensures
        shapes(ops.push(o)) == shapes(ops).push(o@),
{
    assert(shapes(ops.push(o)) =~= shapes(ops).push(o@));
}

fn push_op(ops: &mut Vec<DrawOp>, o: DrawOp)
    ensures
        shapes(final(ops)@) == shapes(old(ops)@).push(o@),
{
    let ghost before = ops@;
    ops.push(o);
    proof {
        lemma_shapes_push(before, o);
    }
}

// ---------------------------------------------------------------------------
// Icons
// ---------------------------------------------------------------------------

/// Width in pixels of the battery's charge bar.
pub open spec fn battery_fill(percent: u8) -> int {
    (percent as int * 7) / 100
}

/// The 11x6 battery icon at `(x, y)`: body outline, terminal, and a charge
/// bar of up to 7 pixels.
pub open spec fn battery_icon(x: i32, y: i32, percent: u8) -> Seq<Shape> {
    let body = seq![Shape::Frame(x, y, 9, 6), Shape::Fill((x + 9) as i32, (y + 1) as i32, 2, 4)];
    if battery_fill(percent) > 0 {
        body.push(Shape::Fill((x + 1) as i32, (y + 1) as i32, battery_fill(percent) as u32, 4))
    } else {
        body
    }
}

/// The Bluetooth icon at `(x, y)`: the rune, then a signal bar when connected
/// or a small cross when not.
pub open spec fn ble_icon(x: i32, y: i32, connected: bool) -> Seq<Shape> {
    let rune = seq![
        Shape::Line((x + 3) as i32, y, (x + 3) as i32, (y + 8) as i32),
        Shape::Line((x + 3) as i32, y, (x + 5) as i32, (y + 2) as i32),
        Shape::Line((x + 5) as i32, (y + 6) as i32, (x + 3) as i32, (y + 8) as i32),
        Shape::Line(x, (y + 2) as i32, (x + 5) as i32, (y + 6) as i32),
        Shape::Line(x, (y + 6) as i32, (x + 5) as i32, (y + 2) as i32),
    ];
    if connected {
        rune.push(Shape::Fill((x + 7) as i32, (y + 3) as i32, 1, 3))
    } else {
        rune + seq![
            Shape::Line((x + 7) as i32, (y + 2) as i32, (x + 9) as i32, (y + 6) as i32),
            Shape::Line((x + 9) as i32, (y + 2) as i32, (x + 7) as i32, (y + 6) as i32),
        ]
    }
}

/// Coordinates at which an icon fits in `i32`.
pub open spec fn icon_fits(x: i32, y: i32) -> bool {
    x + 10 <= i32::MAX && y + 10 <= i32::MAX
}

/// Append the battery icon at `(x, y)`.
pub fn push_battery_icon(ops: &mut Vec<DrawOp>, x: i32, y: i32, percent: u8)
    requires
        icon_fits(x, y),
    ensures
        shapes(final(ops)@) == shapes(old(ops)@) + battery_icon(x, y, percent),
{
    let ghost start = shapes(ops@);
    push_op(ops, DrawOp::Frame { x, y, w: 9, h: 6 });
    push_op(ops, DrawOp::Fill { x: x + 9, y: y + 1, w: 2, h: 4 });
    let fill: u32 = (percent as u32 * 7) / 100;
    if fill > 0 {
        push_op(ops, DrawOp::Fill { x: x + 1, y: y + 1, w: fill, h: 4 });
    }
    assert(shapes(ops@) =~= start + battery_icon(x, y, percent));
}

/// Append the Bluetooth icon at `(x, y)`.
pub fn push_ble_icon(ops: &mut Vec<DrawOp>, x: i32, y: i32, connected: bool)
    requires
        icon_fits(x, y),
    ensures
        shapes(final(ops)@) == shapes(old(ops)@) + ble_icon(x, y, connected),
{
    let ghost start = shapes(ops@);
    push_op(ops, DrawOp::Line { x0: x + 3, y0: y, x1: x + 3, y1: y + 8 });
    push_op(ops, DrawOp::Line { x0: x + 3, y0: y, x1: x + 5, y1: y + 2 });
    push_op(ops, DrawOp::Line { x0: x + 5, y0: y + 6, x1: x + 3, y1: y + 8 });
    push_op(ops, DrawOp::Line { x0: x, y0: y + 2, x1: x + 5, y1: y + 6 });
    push_op(ops, DrawOp::Line { x0: x, y0: y + 6, x1: x + 5, y1: y + 2 });
    if connected {
        push_op(ops, DrawOp::Fill { x: x + 7, y: y + 3, w: 1, h: 3 });
    } else {
        push_op(ops, DrawOp::Line { x0: x + 7, y0: y + 2, x1: x + 9, y1: y + 6 });
        push_op(ops, DrawOp::Line { x0: x + 9, y0: y + 2, x1: x + 7, y1: y + 6 });
    }
    assert(shapes(ops@) =~= start + ble_icon(x, y, connected));
}

// ---------------------------------------------------------------------------
// Screens
// ---------------------------------------------------------------------------

/// The keyboard screen: the status icons in the top right corner and the
/// layer name in large letters in the middle.
pub open spec fn keyboard_screen(mode: Seq<char>, battery_percent: u8, ble_connected: bool) -> Seq<
    Shape,
> {
    seq![Shape::Clear] + ble_icon(98, 1, ble_connected) + battery_icon(112, 2, battery_percent)
        + seq![Shape::Text(mode, 64, 40, Font::LargeBold, true)]
}

/// Draw the keyboard screen.
pub fn keyboard_ui(mode: &str, battery_percent: u8, ble_connected: bool) -> (r: Vec<DrawOp>)
    ensures
        shapes(r@) == keyboard_screen(mode@, battery_percent, ble_connected),
{
    let mut ops: Vec<DrawOp> = Vec::new();
    push_op(&mut ops, DrawOp::Clear);
    push_ble_icon(&mut ops, 98, 1, ble_connected);
    push_battery_icon(&mut ops, 112, 2, battery_percent);
    push_op(
        &mut ops,
        DrawOp::Text { text: mode.to_string(), x: 64, y: 40, font: Font::LargeBold, centered: true },
    );
    assert(shapes(ops@) =~= keyboard_screen(mode@, battery_percent, ble_connected));
    ops
}

/// Width in pixels of the filled part of the progress bar (98 pixels inside
/// the outline at 100%).
pub open spec fn progress_fill(pct: u8) -> int {
    (pct as int * 98) / 100
}

/// Small text with its baseline at `(x, y)`.
pub open spec fn small_text(text: Seq<char>, x: i32, y: i32) -> Shape {
    Shape::Text(text, x, y, Font::Small, false)
}

/// What the content area shows for a slot's data.
pub open spec fn slot_content(slot: Option<DisplaySlotData>) -> Seq<Shape> {
    match slot {
        Some(DisplaySlotData::Text(t)) => seq![small_text(display_text_chars(t), 4, 38)],
        Some(DisplaySlotData::Numeric(v)) => seq![small_text(decimal_text(v as int), 4, 38)],
        Some(DisplaySlotData::Progress(p)) => {
            let bar = seq![small_text(percent_text(p), 4, 30), Shape::Frame(4, 36, 100, 8)];
            if progress_fill(p) > 0 {
                bar.push(Shape::Fill(5, 37, progress_fill(p) as u32, 6))
            } else {
                bar
            }
        },
        Some(DisplaySlotData::Icon(_)) => seq![small_text("[icon]"@, 4, 38)],
        None => seq![small_text("Waiting..."@, 4, 38)],
    }
}

/// The data channel screen: the layer name top left, the status icons top
/// right, a rule under them, and the current slot's data below.
pub open spec fn data_channel_screen(
    mode: Seq<char>,
    battery_percent: u8,
    ble_connected: bool,
    slot: Option<DisplaySlotData>,
) -> Seq<Shape> {
    seq![Shape::Clear, small_text(mode, 2, 9)] + ble_icon(98, 1, ble_connected) + battery_icon(
        112,
        2,
        battery_percent,
    ) + seq![Shape::Line(0, 13, 127, 13)] + slot_content(slot)
}

fn push_slot_content(ops: &mut Vec<DrawOp>, slot_data: Option<&DisplaySlotData>)
    ensures
        shapes(final(ops)@) == shapes(old(ops)@) + slot_content(
            match slot_data {
                Some(d) => Some(*d),
                None => None,
            },
        ),
{
    let ghost start = shapes(ops@);
    match slot_data {
        Some(DisplaySlotData::Text(text)) => {
            let s = display_text_as_str(text);
            push_op(
                ops,
                DrawOp::Text { text: s.to_string(), x: 4, y: 38, font: Font::Small, centered: false },
            );
        },
        Some(DisplaySlotData::Numeric(value)) => {
            let mut buf = [0u8; 16];
            let s = format_i32(*value, &mut buf);
            push_op(
                ops,
                DrawOp::Text { text: s.to_string(), x: 4, y: 38, font: Font::Small, centered: false },
            );
        },
        Some(DisplaySlotData::Progress(pct)) => {
            let mut buf = [0u8; 8];
            let s = format_progress(*pct, &mut buf);
            push_op(
                ops,
                DrawOp::Text { text: s.to_string(), x: 4, y: 30, font: Font::Small, centered: false },
            );
            push_op(ops, DrawOp::Frame { x: 4, y: 36, w: 100, h: 8 });
            let fill_w: u32 = (*pct as u32 * 98) / 100;
            if fill_w > 0 {
                push_op(ops, DrawOp::Fill { x: 5, y: 37, w: fill_w, h: 6 });
            }
        },
        Some(DisplaySlotData::Icon(_)) => {
            push_op(
                ops,
                DrawOp::Text {
                    text: String::from_str("[icon]"),
                    x: 4,
                    y: 38,
                    font: Font::Small,
                    centered: false,
                },
            );
        },
        None => {
            push_op(
                ops,
                DrawOp::Text {
                    text: String::from_str("Waiting..."),
                    x: 4,
                    y: 38,
                    font: Font::Small,
                    centered: false,
                },
            );
        },
    }
    assert(shapes(ops@) =~= start + slot_content(
        match slot_data {
            Some(d) => Some(*d),
            None => None,
        },
    ));
}

/// Draw the data channel screen for the current slot's data (`None` while
/// nothing has arrived).
pub fn data_channel_ui(
    mode: &str,
    battery_percent: u8,
    ble_connected: bool,
    slot_data: Option<&DisplaySlotData>,
) -> (r: Vec<DrawOp>)
    ensures
        shapes(r@) == data_channel_screen(
            mode@,
            battery_percent,
            ble_connected,
            match slot_data {
                Some(d) => Some(*d),
                None => None,
            },
        ),
{
    let mut ops: Vec<DrawOp> = Vec::new();
    push_op(&mut ops, DrawOp::Clear);
    push_op(
        &mut ops,
        DrawOp::Text { text: mode.to_string(), x: 2, y: 9, font: Font::Small, centered: false },
    );
    push_ble_icon(&mut ops, 98, 1, ble_connected);
    push_battery_icon(&mut ops, 112, 2, battery_percent);
    push_op(&mut ops, DrawOp::Line { x0: 0, y0: 13, x1: 127, y1: 13 });
    push_slot_content(&mut ops, slot_data);
    assert(shapes(ops@) =~= data_channel_screen(
        mode@,
        battery_percent,
        ble_connected,
        match slot_data {
            Some(d) => Some(*d),
            None => None,
        },
    ));
    ops
}

/// The home screen: the data channel screen with slot `slot` while the
/// active pad's data channel is on and some slot holds data, the keyboard
/// screen otherwise.
pub fn home_ui(
    mode: &str,
    battery_percent: u8,
    ble_connected: bool,
    dc_enabled: bool,
    cache: &DisplayDataCache,
    slot: u8,
) -> (r: Vec<DrawOp>)
    requires
        slot < DISPLAY_SLOTS,
    ensures
        shapes(r@) == if dc_enabled && count_some(cache.slots@) > 0 {
            data_channel_screen(mode@, battery_percent, ble_connected, cache.slots@[slot as int])
        } else {
            keyboard_screen(mode@, battery_percent, ble_connected)
        },
{
    if dc_enabled && cache.active_count() > 0 {
        let slot_data = match &cache.slots[slot as usize] {
            Some(d) => Some(d),
            None => None,
        };
        data_channel_ui(mode, battery_percent, ble_connected, slot_data)
    } else {
        keyboard_ui(mode, battery_percent, ble_connected)
    }
}

} // verus!
