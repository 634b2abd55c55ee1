//! Frame buffer of the SH1107 OLED controller, used in landscape (128x64):
//! pixel addressing, copying the menu library's image, and the I2C messages
//! that bring the panel up to date page by page.
//!
//! The controller's memory is 16 pages of 64 columns; byte `page * 64 + col`
//! holds rows `page * 8 .. page * 8 + 8` of column `col`, least significant bit
//! first. Landscape pixel `(x, y)` lives in column `y`, row `x`.

use crate::firmware::board::{DISPLAY_HEIGHT, DISPLAY_I2C_ADDR, DISPLAY_WIDTH};
use vstd::prelude::*;

verus! {

/// I2C address of the display controller.
pub const SH1107_ADDR: u8 = DISPLAY_I2C_ADDR;

/// Bytes in a frame: 16 pages of 64 columns.
pub const FRAME_BYTES: usize = 1024;

/// Bit `k` (0..8) of `b`.
pub open spec fn bit_set(b: u8, k: int) -> bool {
    (b >> (k as u8)) & 1u8 == 1u8
}

/// Index of the byte holding landscape pixel `(x, y)`.
pub open spec fn pixel_byte(x: int, y: int) -> int {
    (x / 8) * 64 + y
}

/// Whether landscape pixel `(x, y)` is on in a frame.
pub open spec fn pixel_on(frame: Seq<u8>, x: int, y: int) -> bool {
    bit_set(frame[pixel_byte(x, y)], x % 8)
}

/// A frame with every byte `b`.
pub open spec fn filled_frame(b: u8) -> Seq<u8> {
    Seq::new(FRAME_BYTES as nat, |i: int| b)
}

/// The frame after setting landscape pixel `(x, y)` on or off; pixels off the
/// screen leave it unchanged.
pub open spec fn spec_set_pixel(frame: Seq<u8>, x: int, y: int, on: bool) -> Seq<u8> {
    if 0 <= x < 128 && 0 <= y < 64 {
        let i = pixel_byte(x, y);
        let mask = 1u8 << ((x % 8) as u8);
        frame.update(i, if on { frame[i] | mask } else { frame[i] & !mask })
    } else {
        frame
    }
}

proof fn lemma_set_bit(b: u8, k: u8, j: u8)
    requires
        k < 8,
        j < 8,
    ensures
        ((b | (1u8 << k)) >> j) & 1u8 == if j == k {
            1u8
        } else {
            (b >> j) & 1u8
        },
        ((b & !(1u8 << k)) >> j) & 1u8 == if j == k {
            0u8
        } else {
            (b >> j) & 1u8
        },
        (b & (1u8 << k) != 0u8) == ((b >> k) & 1u8 == 1u8),
{
    assert(((b | (1u8 << k)) >> j) & 1u8 == if j == k {
        1u8
    } else {
        (b >> j) & 1u8
    }) by (bit_vector)
        requires
            k < 8,
            j < 8,
    ;
    assert(((b & !(1u8 << k)) >> j) & 1u8 == if j == k {
        0u8
    } else {
        (b >> j) & 1u8
    }) by (bit_vector)
        requires
            k < 8,
            j < 8,
    ;
    assert((b & (1u8 << k) != 0u8) == ((b >> k) & 1u8 == 1u8)) by (bit_vector)
        requires
            k < 8,
    ;
}

proof fn lemma_filled_bits(j: u8)
    requires
        j < 8,
    ensures
        (0u8 >> j) & 1u8 == 0u8,
        (0xFFu8 >> j) & 1u8 == 1u8,
{
    assert((0u8 >> j) & 1u8 == 0u8) by (bit_vector);
    assert((0xFFu8 >> j) & 1u8 == 1u8) by (bit_vector)
        requires
            j < 8,
    ;
}

/// The pixel of the menu library's image at `(x, y)`: its buffer is laid
/// out in rows of `w` bytes, each byte eight pixels high.
pub open spec fn wououi_pixel(src: Seq<u8>, w: int, x: int, y: int) -> bool {
    let idx = x + (y / 8) * w;
    0 <= idx < src.len() && bit_set(src[idx], y % 8)
}

/// Pixel `(x, y)` of the menu image is lit and lands on bit `k` of byte `i`
/// of the frame.
pub open spec fn lands_on(src: Seq<u8>, w: int, x: int, y: int, i: int, k: int) -> bool {
    wououi_pixel(src, w, x, y) && pixel_byte(x, y) == i && x % 8 == k
}

/// Some lit pixel of a `w` by `h` menu image lands on bit `k` of byte `i`.
pub open spec fn copied_bit(src: Seq<u8>, w: int, h: int, i: int, k: int) -> bool {
    exists|x: int, y: int| 0 <= x < w && 0 <= y < h && #[trigger] lands_on(src, w, x, y, i, k)
}

/// Some lit pixel of row `y`, left of `xmax`, lands on bit `k` of byte `i`.
spec fn row_lands(src: Seq<u8>, w: int, y: int, xmax: int, i: int, k: int) -> bool {
    exists|x: int| 0 <= x < xmax && #[trigger] lands_on(src, w, x, y, i, k)
}

/// Some lit pixel above row `ymax` lands on bit `k` of byte `i`.
spec fn rows_land(src: Seq<u8>, w: int, ymax: int, i: int, k: int) -> bool {
    exists|y: int| 0 <= y < ymax && #[trigger] row_lands(src, w, y, w, i, k)
}

proof fn lemma_rows_land_copied(src: Seq<u8>, w: int, h: int, i: int, k: int)
    ensures
        rows_land(src, w, h, i, k) == copied_bit(src, w, h, i, k),
{
    if rows_land(src, w, h, i, k) {
        let y = choose|y: int| 0 <= y < h && #[trigger] row_lands(src, w, y, w, i, k);
        let x = choose|x: int| 0 <= x < w && #[trigger] lands_on(src, w, x, y, i, k);
        assert(lands_on(src, w, x, y, i, k));
    }
    if copied_bit(src, w, h, i, k) {
        let (x, y) = choose|x: int, y: int|
            0 <= x < w && 0 <= y < h && #[trigger] lands_on(src, w, x, y, i, k);
        assert(row_lands(src, w, y, w, i, k));
    }
}

/// The messages that write page `page` of a frame: the addressing commands
/// (page, column 0), then a data message with the page's 64 bytes.
pub open spec fn page_messages(frame: Seq<u8>, page: int) -> Seq<Seq<u8>> {
    seq![
        seq![0x00u8, 0xB0u8 | (page as u8), 0x00u8, 0x00u8, 0x00u8, 0x10u8],
        seq![0x40u8] + frame.subrange(page * 64, page * 64 + 64),
    ]
}

/// Page `page` differs between two frames.
pub open spec fn page_dirty(frame: Seq<u8>, shown: Seq<u8>, page: int) -> bool {
    frame.subrange(page * 64, page * 64 + 64) != shown.subrange(page * 64, page * 64 + 64)
}

/// The messages that bring the panel from `shown` to `frame`, for the first
/// `n` pages: only pages that differ are written, in order.
pub open spec fn flush_plan(frame: Seq<u8>, shown: Seq<u8>, n: int) -> Seq<Seq<u8>>
    decreases n,
{
    if n <= 0 {
        Seq::empty()
    } else if page_dirty(frame, shown, n - 1) {
        flush_plan(frame, shown, n - 1) + page_messages(frame, n - 1)
    } else {
        flush_plan(frame, shown, n - 1)
    }
}

/// The command message for one controller command.
pub fn command_message(cmd: u8) -> (r: [u8; 2])
    ensures
        r@ == seq![0x00u8, cmd],
{
    [0x00, cmd]
}

/// The controller's power-up command sequence: display off, addressing,
/// contrast 128, remapping, multiplex, offset, clock, pre-charge and VCOMH
/// levels, page addressing mode, and display on from RAM.
pub fn init_commands() -> (r: Vec<u8>)
    ensures
        r@ == seq![
            0xAEu8, 0x00, 0x10, 0xDC, 0x00, 0x81, 0x80, 0xA0, 0xC8, 0xA6, 0xA8, 0x7F, 0xD3,
            0x60, 0xD5, 0xF0, 0xD9, 0x22, 0xDA, 0x12, 0xDB, 0x35, 0x20, 0x00, 0xA4, 0xA6,
        ],
{
    let v: Vec<u8> = vec![
        0xAE, 0x00, 0x10, 0xDC, 0x00, 0x81, 0x80, 0xA0, 0xC8, 0xA6, 0xA8, 0x7F, 0xD3, 0x60,
        0xD5, 0xF0, 0xD9, 0x22, 0xDA, 0x12, 0xDB, 0x35, 0x20, 0x00, 0xA4, 0xA6,
    ];
    v
}

/// The commands that set the contrast (brightness) register.
pub fn contrast_commands(value: u8) -> (r: [u8; 2])
    ensures
        r@ == seq![0x81u8, value],
{
    [0x81, value]
}

/// Frame state of the display: the frame being drawn and the frame the
/// panel last received.
pub struct Sh1107 {
    buffer: Vec<u8>,
    prev_buffer: Vec<u8>,
}

fn filled(b: u8) -> (r: Vec<u8>)
    ensures
        r@ == filled_frame(b),
{
    let mut v: Vec<u8> = Vec::new();
    while v.len() < FRAME_BYTES
        invariant
            v@.len() <= FRAME_BYTES,
            forall|i: int| 0 <= i < v@.len() ==> v@[i] == b,
        decreases FRAME_BYTES - v@.len(),
    {
        v.push(b);
    }
    assert(v@ =~= filled_frame(b));
    v
}

impl Sh1107 {
    #[verifier::type_invariant]
    spec fn inv(self) -> bool {
        self.buffer@.len() == FRAME_BYTES && self.prev_buffer@.len() == FRAME_BYTES
    }

    /// The frame being drawn.
    pub closed spec fn frame(&self) -> Seq<u8> {
        self.buffer@
    }

    /// The frame the panel last received.
    pub closed spec fn shown(&self) -> Seq<u8> {
        self.prev_buffer@
    }

    /// Both frames have the controller's size.
    pub open spec fn wf(&self) -> bool {
        self.frame().len() == FRAME_BYTES && self.shown().len() == FRAME_BYTES
    }

    /// A blank frame; the panel's content is taken to differ everywhere, so
    /// the first flush writes every page.
    pub fn new() -> (r: Self)
        ensures
            r.wf(),
            r.frame() == filled_frame(0),
            r.shown() == filled_frame(0xFF),
    {
        Sh1107 { buffer: filled(0), prev_buffer: filled(0xFF) }
    }

    fn fill(&mut self, b: u8)
        ensures
            final(self).wf(),
            final(self).frame() == filled_frame(b),
            final(self).shown() == old(self).shown(),
    {
        proof {
            use_type_invariant(&*self);
        }
        let mut i: usize = 0;
        while i < FRAME_BYTES
            invariant
                self.wf(),
                self.shown() == old(self).shown(),
                i <= FRAME_BYTES,
                forall|j: int| 0 <= j < i ==> self.frame()[j] == b,
            decreases FRAME_BYTES - i,
        {
            self.buffer[i] = b;
            i = i + 1;
        }
        assert(self.frame() =~= filled_frame(b));
    }

    /// Turn every pixel off.
    pub fn clear_buffer(&mut self)
        ensures
            final(self).wf(),
            final(self).frame() == filled_frame(0),
            final(self).shown() == old(self).shown(),
    {
        proof {
            use_type_invariant(&*self);
        }
        self.fill(0);
    }

    /// Turn every pixel on or off at once.
    pub fn clear(&mut self, on: bool)
        ensures
            final(self).wf(),
            final(self).frame() == filled_frame(if on { 0xFFu8 } else { 0u8 }),
            final(self).shown() == old(self).shown(),
            forall|x: int, y: int|
                0 <= x < 128 && 0 <= y < 64 ==> pixel_on(final(self).frame(), x, y) == on,
    {
        proof {
            use_type_invariant(&*self);
        }
        if on {
            self.fill(0xFF);
        } else {
            self.fill(0);
        }
        assert forall|x: int, y: int| 0 <= x < 128 && 0 <= y < 64 implies pixel_on(
            self.frame(),
            x,
            y,
        ) == on by {
            lemma_filled_bits((x % 8) as u8);
        }
    }

    /// Set landscape pixel `(x, y)`; pixels off the screen are ignored.
    pub fn set_pixel(&mut self, x: i32, y: i32, on: bool)
        ensures
            final(self).wf(),
            final(self).shown() == old(self).shown(),
            final(self).frame() == spec_set_pixel(old(self).frame(), x as int, y as int, on),
            0 <= x < 128 && 0 <= y < 64 ==> pixel_on(final(self).frame(), x as int, y as int) == on,
            forall|px: int, py: int|
                0 <= px < 128 && 0 <= py < 64 && (px != x || py != y) ==> pixel_on(
                    final(self).frame(),
                    px,
                    py,
                ) == pixel_on(old(self).frame(), px, py),
    {
        proof {
            use_type_invariant(&*self);
        }
        if x < 0 || x >= DISPLAY_WIDTH as i32 || y < 0 || y >= DISPLAY_HEIGHT as i32 {
            return ;
        }
        let col = y as usize;
        let row = x as usize;
        let page = row / 8;
        let bit = (row % 8) as u8;
        let idx = page * 64 + col;
        if idx < self.buffer.len() {
            let b = self.buffer[idx];
            let nb = if on {
                b | (1u8 << bit)
            } else {
                b & !(1u8 << bit)
            };
            let ghost before = self.frame();
            self.buffer[idx] = nb;
            proof {
                assert(pixel_byte(x as int, y as int) == idx);
                assert(bit == (x as int % 8) as u8);
                lemma_set_bit(b, bit, bit);
                assert forall|px: int, py: int|
                    0 <= px < 128 && 0 <= py < 64 && (px != x || py != y) implies pixel_on(
                    self.frame(),
                    px,
                    py,
                ) == pixel_on(before, px, py) by {
                    if pixel_byte(px, py) == idx {
                        lemma_set_bit(b, bit, (px % 8) as u8);
                    }
                }
            }
        }
    }

    /// Replace the frame by the menu library's `screen_w` by `screen_h` image,
    /// turned a quarter: each lit image pixel `(x, y)` lights landscape pixel
    /// `(x, y)`; image pixels that fall outside the frame are dropped.
    pub fn copy_from_wououi(&mut self, wououi_buffer: &[u8], screen_w: usize, screen_h: usize)
        requires
            (screen_h / 8 + 1) * screen_w <= usize::MAX,
            screen_w * 8 + screen_h <= usize::MAX,
        ensures
            final(self).wf(),
            final(self).shown() == old(self).shown(),
            forall|i: int, k: int|
                0 <= i < FRAME_BYTES && 0 <= k < 8 ==> #[trigger] bit_set(final(self).frame()[i], k)
                    == copied_bit(wououi_buffer@, screen_w as int, screen_h as int, i, k),
    {
        proof {
            use_type_invariant(&*self);
        }
        let ghost src = wououi_buffer@;
        let ghost w = screen_w as int;
        self.clear_buffer();
        proof {
            assert forall|i: int, k: int| 0 <= i < FRAME_BYTES && 0 <= k < 8 implies !#[trigger] bit_set(
                self.frame()[i],
                k,
            ) by {
                lemma_filled_bits(k as u8);
            }
        }
        let mut y: usize = 0;
        while y < screen_h
            invariant
                self.wf(),
                self.shown() == old(self).shown(),
                src == wououi_buffer@,
                w == screen_w,
                y <= screen_h,
                (screen_h / 8 + 1) * screen_w <= usize::MAX,
                screen_w * 8 + screen_h <= usize::MAX,
                forall|i: int, k: int|
                    0 <= i < FRAME_BYTES && 0 <= k < 8 ==> #[trigger] bit_set(self.frame()[i], k)
                        == rows_land(src, w, y as int, i, k),
            decreases screen_h - y,
        {
            let mut x: usize = 0;
            while x < screen_w
                invariant
                    self.wf(),
                    self.shown() == old(self).shown(),
                    src == wououi_buffer@,
                    w == screen_w,
                    y < screen_h,
                    x <= screen_w,
                    (screen_h / 8 + 1) * screen_w <= usize::MAX,
                    screen_w * 8 + screen_h <= usize::MAX,
                    forall|i: int, k: int|
                        0 <= i < FRAME_BYTES && 0 <= k < 8 ==> #[trigger] bit_set(
                            self.frame()[i],
                            k,
                        ) == (rows_land(src, w, y as int, i, k) || row_lands(
                            src,
                            w,
                            y as int,
                            x as int,
                            i,
                            k,
                        )),
                decreases screen_w - x,
            {
                proof {
                    assert((y / 8) * screen_w <= (screen_h / 8) * screen_w) by (nonlinear_arith)
                        requires
                            y < screen_h,
                    ;
                    assert((screen_h / 8) * screen_w + screen_w == (screen_h / 8 + 1) * screen_w)
                        by (nonlinear_arith);
                }
                let byte_idx = x + (y / 8) * screen_w;
                let wbit = (y % 8) as u8;
                let ghost before = self.frame();
                if byte_idx < wououi_buffer.len() {
                    let pixel_lit = (wououi_buffer[byte_idx] & (1u8 << wbit)) != 0;
                    proof {
                        lemma_set_bit(wououi_buffer@[byte_idx as int], wbit, wbit);
                    }
                    if pixel_lit {
                        let col = y;
                        let row = x;
                        let page = row / 8;
                        let bit = (row % 8) as u8;
                        let idx = page * 64 + col;
                        if idx < self.buffer.len() {
                            let b = self.buffer[idx];
                            self.buffer[idx] = b | (1u8 << bit);
                            proof {
                                assert forall|i: int, k: int|
                                    0 <= i < FRAME_BYTES && 0 <= k < 8 implies #[trigger] bit_set(
                                    self.frame()[i],
                                    k,
                                ) == (bit_set(before[i], k) || (i == idx && k == bit)) by {
                                    if i == idx {
                                        lemma_set_bit(b, bit, k as u8);
                                    }
                                }
                            }
                        }
                    }
                }
                proof {
                    assert forall|i: int, k: int|
                        0 <= i < FRAME_BYTES && 0 <= k < 8 implies #[trigger] bit_set(
                        self.frame()[i],
                        k,
                    ) == (rows_land(src, w, y as int, i, k) || row_lands(
                        src,
                        w,
                        y as int,
                        x + 1,
                        i,
                        k,
                    )) by {
                        let c = lands_on(src, w, x as int, y as int, i, k);
                        assert(bit_set(self.frame()[i], k) == (bit_set(before[i], k) || c));
                        if row_lands(src, w, y as int, x + 1, i, k) && !c {
                            let px = choose|px: int|
                                0 <= px < x + 1 && #[trigger] lands_on(src, w, px, y as int, i, k);
                            assert(row_lands(src, w, y as int, x as int, i, k));
                        }
                        if c {
                            assert(row_lands(src, w, y as int, x + 1, i, k));
                        }
                        if row_lands(src, w, y as int, x as int, i, k) {
                            let px = choose|px: int|
                                0 <= px < x && #[trigger] lands_on(src, w, px, y as int, i, k);
                            assert(row_lands(src, w, y as int, x + 1, i, k));
                        }
                    }
                }
                x = x + 1;
            }
            proof {
                assert forall|i: int, k: int|
                    0 <= i < FRAME_BYTES && 0 <= k < 8 implies #[trigger] bit_set(
                    self.frame()[i],
                    k,
                ) == rows_land(src, w, y + 1, i, k) by {
                    if rows_land(src, w, y + 1, i, k) && !row_lands(src, w, y as int, w, i, k) {
                        let py = choose|py: int|
                            0 <= py < y + 1 && #[trigger] row_lands(src, w, py, w, i, k);
                        assert(rows_land(src, w, y as int, i, k));
                    }
                    if row_lands(src, w, y as int, w, i, k) {
                        assert(rows_land(src, w, y + 1, i, k));
                    }
                    if rows_land(src, w, y as int, i, k) {
                        let py = choose|py: int|
                            0 <= py < y && #[trigger] row_lands(src, w, py, w, i, k);
                        assert(rows_land(src, w, y + 1, i, k));
                    }
                }
            }
            y = y + 1;
        }
        proof {
            assert forall|i: int, k: int|
                0 <= i < FRAME_BYTES && 0 <= k < 8 implies #[trigger] bit_set(self.frame()[i], k)
                == copied_bit(src, w, screen_h as int, i, k) by {
                lemma_rows_land_copied(src, w, screen_h as int, i, k);
            }
        }
    }

    /// The I2C messages that bring the panel up to date: for each of the 16
    /// pages that differs from what the panel shows, its addressing commands
    /// and its data.
    pub fn flush_messages(&self) -> (r: Vec<Vec<u8>>)
        ensures
            r@.map_values(|m: Vec<u8>| m@) == flush_plan(self.frame(), self.shown(), 16),
    {
        proof {
            use_type_invariant(self);
        }
        let mut out: Vec<Vec<u8>> = Vec::new();
        let mut page: usize = 0;
        while page < 16
            invariant
                self.wf(),
                page <= 16,
                out@.map_values(|m: Vec<u8>| m@) == flush_plan(
                    self.frame(),
                    self.shown(),
                    page as int,
                ),
            decreases 16 - page,
        {
            let start = page * 64;
            let mut same = true;
            let mut j: usize = 0;
            assert(self.frame().subrange(start as int, start as int) =~= self.shown().subrange(
                start as int,
                start as int,
            ));
            while j < 64
                invariant
                    self.wf(),
                    page < 16,
                    start == page * 64,
                    j <= 64,
                    same == (self.frame().subrange(start as int, start + j) == self.shown().subrange(
                        start as int,
                        start + j,
                    )),
                decreases 64 - j,
            {
                let ghost fa = self.frame().subrange(start as int, start + j);
                let ghost sa = self.shown().subrange(start as int, start + j);
                if self.buffer[start + j] != self.prev_buffer[start + j] {
                    same = false;
                }
                j = j + 1;
                proof {
                    let fb = self.frame().subrange(start as int, start + j);
                    let sb = self.shown().subrange(start as int, start + j);
                    assert(fb =~= fa.push(self.frame()[start + j - 1]));
                    assert(sb =~= sa.push(self.shown()[start + j - 1]));
                    if fa == sa && self.frame()[start + j - 1] == self.shown()[start + j - 1] {
                        assert(fb =~= sb);
                    }
                    if fb == sb {
                        assert(fa =~= fb.drop_last());
                        assert(sa =~= sb.drop_last());
                        assert(fb[j - 1] == sb[j - 1]);
                    }
                }
            }
            let ghost before = out@.map_values(|m: Vec<u8>| m@);
            proof {
                let a = self.frame().subrange(start as int, start + 64);
                let b = self.shown().subrange(start as int, start + 64);
                assert(a == self.frame().subrange(start as int, start + j));
            }
            if !same {
                let cmds: Vec<u8> = vec![0x00, 0xB0 | (page as u8), 0x00, 0x00, 0x00, 0x10];
                let mut data: Vec<u8> = Vec::new();
                data.push(0x40);
                let mut j: usize = 0;
                while j < 64
                    invariant
                        self.wf(),
                        page < 16,
                        start == page * 64,
                        j <= 64,
                        data@ == seq![0x40u8] + self.frame().subrange(start as int, start + j),
                    decreases 64 - j,
                {
                    data.push(self.buffer[start + j]);
                    j = j + 1;
                    assert(data@ =~= seq![0x40u8] + self.frame().subrange(start as int, start + j));
                }
                out.push(cmds);
                out.push(data);
                proof {
                    assert(out@.map_values(|m: Vec<u8>| m@) =~= before + page_messages(
                        self.frame(),
                        page as int,
                    ));
                }
            }
            page = page + 1;
        }
        out
    }

    /// Record that the panel now shows the frame (after every message of
    /// `flush_messages` was sent).
    pub fn mark_flushed(&mut self)
        ensures
            final(self).wf(),
            final(self).frame() == old(self).frame(),
            final(self).shown() == old(self).frame(),
    {
        proof {
            use_type_invariant(&*self);
        }
        self.prev_buffer = self.buffer.clone();
    }
}

/// After a flush the panel is up to date: flushing again sends nothing.
pub proof fn lemma_flush_idempotent(frame: Seq<u8>, n: int)
    requires
        frame.len() == FRAME_BYTES,
        n <= 16,
    ensures
        flush_plan(frame, frame, n) == Seq::<Seq<u8>>::empty(),
    decreases n,
{
    if n > 0 {
        lemma_flush_idempotent(frame, n - 1);
    }
}

/// With the menu image at the screen's size, every landscape pixel shows the
/// image's pixel at the same place.
pub proof fn lemma_copy_screen_pixel(src: Seq<u8>, frame: Seq<u8>, x: int, y: int)
    requires
        frame.len() == FRAME_BYTES,
        forall|i: int, k: int|
            0 <= i < FRAME_BYTES && 0 <= k < 8 ==> #[trigger] bit_set(frame[i], k) == copied_bit(
                src,
                128,
                64,
                i,
                k,
            ),
        0 <= x < 128,
        0 <= y < 64,
    ensures
        pixel_on(frame, x, y) == wououi_pixel(src, 128, x, y),
{
    let i = pixel_byte(x, y);
    let k = x % 8;
    assert(bit_set(frame[i], k) == copied_bit(src, 128, 64, i, k));
    if copied_bit(src, 128, 64, i, k) {
        let (px, py) = choose|px: int, py: int|
            0 <= px < 128 && 0 <= py < 64 && #[trigger] lands_on(src, 128, px, py, i, k);
        assert(px == x && py == y);
    }
    if wououi_pixel(src, 128, x, y) {
        assert(lands_on(src, 128, x, y, i, k));
    }
}


/// Drawing the lit pixels of row `y` of a `w`-wide menu image left of `xmax`
/// onto `frame`, one `set_pixel` each, left to right.
pub open spec fn draw_row(frame: Seq<u8>, src: Seq<u8>, w: int, y: int, xmax: int) -> Seq<u8>
    decreases xmax,
{
    if xmax <= 0 {
        frame
    } else {
        let f = draw_row(frame, src, w, y, xmax - 1);
        if wououi_pixel(src, w, xmax - 1, y) {
            spec_set_pixel(f, xmax - 1, y, true)
        } else {
            f
        }
    }
}

/// Clearing the frame, then drawing every lit pixel of the first `ymax` rows
/// of a `w`-wide menu image, row by row.
pub open spec fn drawn_image(src: Seq<u8>, w: int, ymax: int) -> Seq<u8>
    decreases ymax,
{
    if ymax <= 0 {
        filled_frame(0)
    } else {
        draw_row(drawn_image(src, w, ymax - 1), src, w, ymax - 1, w)
    }
}

proof fn lemma_draw_row_bits(frame: Seq<u8>, src: Seq<u8>, w: int, y: int, xmax: int)
    requires
        frame.len() == FRAME_BYTES,
        0 <= xmax <= w <= 128,
        0 <= y < 64,
    ensures
        draw_row(frame, src, w, y, xmax).len() == FRAME_BYTES,
        forall|i: int, k: int|
            0 <= i < FRAME_BYTES && 0 <= k < 8 ==> #[trigger] bit_set(
                draw_row(frame, src, w, y, xmax)[i],
                k,
            ) == (bit_set(frame[i], k) || row_lands(src, w, y, xmax, i, k)),
    decreases xmax,
{
    if xmax > 0 {
        lemma_draw_row_bits(frame, src, w, y, xmax - 1);
        let f = draw_row(frame, src, w, y, xmax - 1);
        let x = xmax - 1;
        let out = draw_row(frame, src, w, y, xmax);
        assert forall|i: int, k: int| 0 <= i < FRAME_BYTES && 0 <= k < 8 implies #[trigger] bit_set(
            out[i],
            k,
        ) == (bit_set(frame[i], k) || row_lands(src, w, y, xmax, i, k)) by {
            let hit = lands_on(src, w, x, y, i, k);
            if wououi_pixel(src, w, x, y) {
                let p = pixel_byte(x, y);
                if i == p {
                    lemma_set_bit(f[i], (x % 8) as u8, k as u8);
                }
                assert(bit_set(out[i], k) == (bit_set(f[i], k) || hit));
            } else {
                assert(!hit);
            }
            if row_lands(src, w, y, xmax, i, k) && !hit {
                let px = choose|px: int| 0 <= px < xmax && #[trigger] lands_on(src, w, px, y, i, k);
                assert(row_lands(src, w, y, xmax - 1, i, k));
            }
            if hit {
                assert(row_lands(src, w, y, xmax, i, k));
            }
            if row_lands(src, w, y, xmax - 1, i, k) {
                let px = choose|px: int|
                    0 <= px < xmax - 1 && #[trigger] lands_on(src, w, px, y, i, k);
                assert(row_lands(src, w, y, xmax, i, k));
            }
        }
    }
}

proof fn lemma_drawn_image_bits(src: Seq<u8>, w: int, ymax: int)
    requires
        0 <= w <= 128,
        0 <= ymax <= 64,
    ensures
        drawn_image(src, w, ymax).len() == FRAME_BYTES,
        forall|i: int, k: int|
            0 <= i < FRAME_BYTES && 0 <= k < 8 ==> #[trigger] bit_set(
                drawn_image(src, w, ymax)[i],
                k,
            ) == rows_land(src, w, ymax, i, k),
    decreases ymax,
{
    if ymax == 0 {
        assert forall|i: int, k: int| 0 <= i < FRAME_BYTES && 0 <= k < 8 implies #[trigger] bit_set(
            drawn_image(src, w, 0)[i],
            k,
        ) == rows_land(src, w, 0, i, k) by {
            lemma_filled_bits(k as u8);
        }
    } else {
        lemma_drawn_image_bits(src, w, ymax - 1);
        let prev = drawn_image(src, w, ymax - 1);
        lemma_draw_row_bits(prev, src, w, ymax - 1, w);
        let out = drawn_image(src, w, ymax);
        assert forall|i: int, k: int| 0 <= i < FRAME_BYTES && 0 <= k < 8 implies #[trigger] bit_set(
            out[i],
            k,
        ) == rows_land(src, w, ymax, i, k) by {
            assert(bit_set(prev[i], k) == rows_land(src, w, ymax - 1, i, k));
            if rows_land(src, w, ymax, i, k) && !row_lands(src, w, ymax - 1, w, i, k) {
                let py = choose|py: int| 0 <= py < ymax && #[trigger] row_lands(src, w, py, w, i, k);
                assert(rows_land(src, w, ymax - 1, i, k));
            }
            if row_lands(src, w, ymax - 1, w, i, k) {
                assert(rows_land(src, w, ymax, i, k));
            }
            if rows_land(src, w, ymax - 1, i, k) {
                let py = choose|py: int| 0 <= py < ymax - 1 && #[trigger] row_lands(src, w, py, w, i, k);
                assert(rows_land(src, w, ymax, i, k));
            }
        }
    }
}

proof fn lemma_byte_from_bits(a: u8, b: u8)
    requires
        forall|k: int| 0 <= k < 8 ==> #[trigger] bit_set(a, k) == bit_set(b, k),
    ensures
        a == b,
{
    assert(bit_set(a, 0) == bit_set(b, 0));
    assert(bit_set(a, 1) == bit_set(b, 1));
    assert(bit_set(a, 2) == bit_set(b, 2));
    assert(bit_set(a, 3) == bit_set(b, 3));
    assert(bit_set(a, 4) == bit_set(b, 4));
    assert(bit_set(a, 5) == bit_set(b, 5));
    assert(bit_set(a, 6) == bit_set(b, 6));
    assert(bit_set(a, 7) == bit_set(b, 7));
    assert(a == b) by (bit_vector)
        requires
            ((a >> 0u8) & 1u8 == 1u8) == ((b >> 0u8) & 1u8 == 1u8),
            ((a >> 1u8) & 1u8 == 1u8) == ((b >> 1u8) & 1u8 == 1u8),
            ((a >> 2u8) & 1u8 == 1u8) == ((b >> 2u8) & 1u8 == 1u8),
            ((a >> 3u8) & 1u8 == 1u8) == ((b >> 3u8) & 1u8 == 1u8),
            ((a >> 4u8) & 1u8 == 1u8) == ((b >> 4u8) & 1u8 == 1u8),
            ((a >> 5u8) & 1u8 == 1u8) == ((b >> 5u8) & 1u8 == 1u8),
            ((a >> 6u8) & 1u8 == 1u8) == ((b >> 6u8) & 1u8 == 1u8),
            ((a >> 7u8) & 1u8 == 1u8) == ((b >> 7u8) & 1u8 == 1u8),
    ;
}

/// Copying a menu image no larger than the screen is clearing the frame and
/// then setting, with `set_pixel`, every lit pixel of the image, row by row.
pub proof fn lemma_copy_is_clear_then_draw(src: Seq<u8>, w: int, h: int, frame: Seq<u8>)
    requires
        0 <= w <= 128,
        0 <= h <= 64,
        frame.len() == FRAME_BYTES,
        forall|i: int, k: int|
            0 <= i < FRAME_BYTES && 0 <= k < 8 ==> #[trigger] bit_set(frame[i], k) == copied_bit(
                src,
                w,
                h,
                i,
                k,
            ),
    ensures
        frame == drawn_image(src, w, h),
{
    lemma_drawn_image_bits(src, w, h);
    let d = drawn_image(src, w, h);
    assert forall|i: int| 0 <= i < FRAME_BYTES implies frame[i] == d[i] by {
        assert forall|k: int| 0 <= k < 8 implies #[trigger] bit_set(frame[i], k) == bit_set(d[i], k) by {
            lemma_rows_land_copied(src, w, h, i, k);
        }
        lemma_byte_from_bits(frame[i], d[i]);
    }
    assert(frame =~= d);
}
} // verus!
