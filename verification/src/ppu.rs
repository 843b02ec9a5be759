//! Picture Processing Unit.
//!
//! The PPU advances one dot per CPU cycle.  A scanline lasts 456 dots:
//! OAM search (dots 0-79), pixel transfer (80-251) and H-Blank (252-455).
//! Lines 0-143 are visible, lines 144-153 are V-Blank.  The frame buffer holds
//! one 2-bit shade per pixel, row by row.
use vstd::prelude::*;

verus! {

/// PPU mode, as reported in the low two bits of STAT.
#[derive(Debug, Clone, Copy, PartialEq, Eq, Structural)]
pub enum Mode {
    HBlank,
    VBlank,
    OamSearch,
    PixelTransfer,
}

impl Mode {
    /// The value of the mode in the STAT register.
    pub open spec fn spec_bits(self) -> u8 {
        match self {
            Mode::HBlank => 0,
            Mode::VBlank => 1,
            Mode::OamSearch => 2,
            Mode::PixelTransfer => 3,
        }
    }

    /// The value of the mode in the STAT register.
    pub fn bits(self) -> (r: u8)
        ensures
            r == self.spec_bits(),
    {
        match self {
            Mode::HBlank => 0,
            Mode::VBlank => 1,
            Mode::OamSearch => 2,
            Mode::PixelTransfer => 3,
        }
    }
}

pub const SCREEN_WIDTH: usize = 160;

pub const SCREEN_HEIGHT: usize = 144;

/// The screen: 144 rows of 160 shades (0-3).
pub type Framebuffer = [[u8; SCREEN_WIDTH]; SCREEN_HEIGHT];

/// The rows of a frame buffer as sequences of shades.
pub open spec fn frame_rows(fb: Framebuffer) -> Seq<Seq<u8>> {
    fb@.map_values(|row: [u8; SCREEN_WIDTH]| row@)
}

/// Component `k` (red, green, blue) of the colour that shows shade `shade`,
/// from the lightest (0) to the darkest (3).
pub open spec fn shade_rgb(shade: u8, k: int) -> u8 {
    if shade == 0 {
        if k == 0 { 0x9B } else if k == 1 { 0xBC } else { 0x0F }
    } else if shade == 1 {
        if k == 0 { 0x8B } else if k == 1 { 0xAC } else { 0x0F }
    } else if shade == 2 {
        if k == 0 { 0x30 } else if k == 1 { 0x62 } else { 0x30 }
    } else {
        if k == 0 { 0x0F } else if k == 1 { 0x38 } else { 0x0F }
    }
}

/// Byte `i` of the RGBA image of `rows` scaled by `scale`: pixels row after
/// row, four bytes each (red, green, blue, then alpha 255), every pixel of
/// the screen repeated `scale` times in both directions.
pub open spec fn rgba_byte(rows: Seq<Seq<u8>>, scale: int, i: int) -> u8 {
    let width = 160 * scale;
    let pixel = i / 4;
    let k = i % 4;
    let y = pixel / width;
    let x = pixel % width;
    if k == 3 {
        255
    } else {
        shade_rgb(rows[y / scale][x / scale], k)
    }
}

/// In the RGBA image, pixel (`x`, `y`) of the scaled screen takes bytes
/// `4 * (y * width + x)` to `+ 3`: the colour of the screen pixel it
/// enlarges, then alpha 255.
pub proof fn law_rgba_pixel(rows: Seq<Seq<u8>>, scale: int, y: int, x: int, k: int)
    requires
        scale > 0,
        0 <= y < 144 * scale,
        0 <= x < 160 * scale,
        0 <= k < 4,
    ensures
        rgba_byte(rows, scale, (y * (160 * scale) + x) * 4 + k) == if k == 3 {
            255
        } else {
            shade_rgb(rows[y / scale][x / scale], k)
        },
{
    let width = 160 * scale;
    let pixel = y * width + x;
    vstd::arithmetic::div_mod::lemma_fundamental_div_mod_converse(pixel * 4 + k, 4, pixel, k);
    vstd::arithmetic::div_mod::lemma_fundamental_div_mod_converse(pixel, width, y, x);
}

/// Component `k` of the colour of `shade`.
fn shade_component(shade: u8, k: usize) -> (r: u8)
    requires
        shade < 4,
        k < 3,
    ensures
        r == shade_rgb(shade, k as int),
{
    let colors: [[u8; 3]; 4] = [
        [0x9B, 0xBC, 0x0F],
        [0x8B, 0xAC, 0x0F],
        [0x30, 0x62, 0x30],
        [0x0F, 0x38, 0x0F],
    ];
    colors[shade as usize][k]
}

/// The screen as an RGBA image scaled by `scale`, as [`rgba_byte`] lays it
/// out.
pub fn framebuffer_rgba(fb: &Framebuffer, scale: usize) -> (v: Vec<u8>)
    requires
        160 * 144 * 4 * scale * scale <= usize::MAX,
        forall|y: int, x: int| 0 <= y < 144 && 0 <= x < 160 ==> #[trigger] frame_rows(*fb)[y][x] < 4,
    ensures
        v@.len() == 160 * scale * 144 * scale * 4,
        forall|i: int| 0 <= i < v@.len() ==> #[trigger] v@[i] == rgba_byte(frame_rows(*fb), scale as int, i),
{
    assert(160 * scale * 144 * scale * 4 == 160 * 144 * 4 * scale * scale) by (nonlinear_arith);
    assert(160 * scale <= usize::MAX && 144 * scale <= usize::MAX && (160 * scale) * (144 * scale)
        <= usize::MAX && (160 * scale) * (144 * scale) * 4 <= usize::MAX) by (nonlinear_arith)
        requires
            160 * 144 * 4 * scale * scale <= usize::MAX,
    ;
    let width = 160 * scale;
    let height = 144 * scale;
    let total = width * height * 4;
    assert(total == 160 * scale * 144 * scale * 4) by (nonlinear_arith)
        requires
            total == width * height * 4,
            width == 160 * scale,
            height == 144 * scale,
    ;
    let mut v: Vec<u8> = Vec::new();
    let mut i: usize = 0;
    while i < total
        invariant
            width == 160 * scale,
            height == 144 * scale,
            total == width * height * 4,
            total == 160 * scale * 144 * scale * 4,
            i <= total,
            v@.len() == i,
            forall|y: int, x: int| 0 <= y < 144 && 0 <= x < 160 ==> #[trigger] frame_rows(*fb)[y][x] < 4,
            forall|j: int| 0 <= j < i ==> #[trigger] v@[j] == rgba_byte(frame_rows(*fb), scale as int, j),
        decreases total - i,
    {
        let pixel = i / 4;
        let k = i % 4;
        let byte = if k == 3 {
            255
        } else {
            let y = pixel / width;
            let x = pixel % width;
            assert(scale > 0 && y < height && x < width) by (nonlinear_arith)
                requires
                    i < total,
                    total == width * height * 4,
                    pixel == i / 4,
                    y == pixel / width,
                    x == pixel % width,
                    width == 160 * scale,
                    height == 144 * scale,
            ;
            assert(y / scale < 144 && x / scale < 160) by (nonlinear_arith)
                requires
                    scale > 0,
                    y < 144 * scale,
                    x < 160 * scale,
            ;
            let row = fb[y / scale];
            let shade = row[x / scale];
            assert(shade == frame_rows(*fb)[(y / scale) as int][(x / scale) as int]);
            shade_component(shade, k)
        };
        v.push(byte);
        i = i + 1;
    }
    v
}

/// A sprite selected by the OAM scan for the current line.
#[derive(Debug, Clone, Copy)]
pub struct SpriteData {
    pub y: i16,
    pub x: i16,
    pub tile_index: u8,
    pub attributes: u8,
}

pub struct Ppu {
    ly: u8,
    dots: u16,
    mode: Mode,
    lcdc: u8,
    stat: u8,
    scy: u8,
    scx: u8,
    lyc: u8,
    bgp: u8,
    obp0: u8,
    obp1: u8,
    wy: u8,
    wx: u8,
    framebuffer: Framebuffer,
    sprite_buffer: Vec<SpriteData>,
    pub vblank_interrupt: bool,
    pub stat_interrupt: bool,
    pub should_scan_oam: bool,
    pub should_render_scanline: bool,
}

/// The abstract state of the PPU.
pub struct PpuModel {
    pub ly: u8,
    pub dots: u16,
    pub mode: Mode,
    pub lcdc: u8,
    pub stat: u8,
    pub scy: u8,
    pub scx: u8,
    pub lyc: u8,
    pub bgp: u8,
    pub obp0: u8,
    pub obp1: u8,
    pub wy: u8,
    pub wx: u8,
    pub framebuffer: Seq<Seq<u8>>,
    pub sprites: Seq<SpriteData>,
    pub vblank_interrupt: bool,
    pub stat_interrupt: bool,
    pub should_scan_oam: bool,
    pub should_render_scanline: bool,
}

impl View for Ppu {
    type V = PpuModel;

    closed spec fn view(&self) -> PpuModel {
        PpuModel {
            ly: self.ly,
            dots: self.dots,
            mode: self.mode,
            lcdc: self.lcdc,
            stat: self.stat,
            scy: self.scy,
            scx: self.scx,
            lyc: self.lyc,
            bgp: self.bgp,
            obp0: self.obp0,
            obp1: self.obp1,
            wy: self.wy,
            wx: self.wx,
            framebuffer: frame_rows(self.framebuffer),
            sprites: self.sprite_buffer@,
            vblank_interrupt: self.vblank_interrupt,
            stat_interrupt: self.stat_interrupt,
            should_scan_oam: self.should_scan_oam,
            should_render_scanline: self.should_render_scanline,
        }
    }
}

// ---------------------------------------------------------------------------
// Timing model
// ---------------------------------------------------------------------------
impl PpuModel {
    /// Mode, line and dot counter agree with the scanline timing.
    pub open spec fn wf(self) -> bool {
        &&& self.stat & 0x03 == self.mode.spec_bits()
        &&& self.framebuffer.len() == 144
        &&& forall|y: int| 0 <= y < 144 ==> (#[trigger] self.framebuffer[y]).len() == 160
        &&& self.sprites.len() <= 10
        &&& forall|i: int|
            0 <= i < self.sprites.len() ==> sprite_in_oam_range(#[trigger] self.sprites[i])
        &&& match self.mode {
            Mode::OamSearch => self.dots < 80 && self.ly < 144,
            Mode::PixelTransfer => self.dots < 252 && self.ly < 144,
            Mode::HBlank => self.dots < 456 && self.ly < 144,
            Mode::VBlank => self.dots < 456 && 144 <= self.ly < 154,
        }
    }

    pub open spec fn lcd_enabled(self) -> bool {
        self.lcdc & 0x80 != 0
    }

    /// Enter `mode`: update STAT's mode bits and request a STAT interrupt
    /// when the mode changes and its STAT source is enabled.
    pub open spec fn set_mode(self, mode: Mode) -> PpuModel {
        let stat = (self.stat & 0xFC) | mode.spec_bits();
        let stat_int = match mode {
            Mode::HBlank => stat & 0x08 != 0,
            Mode::VBlank => stat & 0x10 != 0,
            Mode::OamSearch => stat & 0x20 != 0,
            Mode::PixelTransfer => false,
        };
        PpuModel {
            mode: mode,
            stat: stat,
            stat_interrupt: if stat_int && self.mode != mode {
                true
            } else {
                self.stat_interrupt
            },
            ..self
        }
    }

    /// Refresh the LY=LYC flag (STAT bit 2) and request a STAT interrupt
    /// when it holds and its source (STAT bit 6) is enabled.
    pub open spec fn update_lyc(self) -> PpuModel {
        let eq = self.ly == self.lyc;
        let stat = if eq {
            self.stat | 0x04
        } else {
            self.stat & 0xFB
        };
        PpuModel {
            stat: stat,
            stat_interrupt: if eq && stat & 0x40 != 0 {
                true
            } else {
                self.stat_interrupt
            },
            ..self
        }
    }

    /// The state after one dot.
    pub open spec fn dot(self) -> PpuModel {
        let p = PpuModel { dots: (self.dots + 1) as u16, ..self };
        match p.mode {
            Mode::OamSearch => if p.dots == 80 {
                p.set_mode(Mode::PixelTransfer)
            } else {
                p
            },
            Mode::PixelTransfer => if p.dots == 252 {
                PpuModel { should_render_scanline: true, ..p }.set_mode(Mode::HBlank)
            } else {
                p
            },
            Mode::HBlank => if p.dots == 456 {
                let q = PpuModel { dots: 0, ly: (p.ly + 1) as u8, ..p };
                if q.ly == 144 {
                    PpuModel { vblank_interrupt: true, ..q.set_mode(Mode::VBlank) }.update_lyc()
                } else {
                    PpuModel { should_scan_oam: true, ..q }.set_mode(Mode::OamSearch).update_lyc()
                }
            } else {
                p
            },
            Mode::VBlank => if p.dots == 456 {
                let q = PpuModel { dots: 0, ly: (p.ly + 1) as u8, ..p };
                if q.ly == 154 {
                    PpuModel { ly: 0, should_scan_oam: true, ..q }.set_mode(
                        Mode::OamSearch,
                    ).update_lyc()
                } else {
                    q.update_lyc()
                }
            } else {
                p
            },
        }
    }

    /// The state after `n` dots with the LCD on.
    pub open spec fn dots_after(self, n: nat) -> PpuModel
        decreases n,
    {
        if n == 0 {
            self
        } else {
            self.dots_after((n - 1) as nat).dot()
        }
    }

    /// The state after the CPU spent `cycles` cycles: nothing moves while
    /// the LCD is off.
    pub open spec fn stepped(self, cycles: nat) -> PpuModel {
        if self.lcd_enabled() {
            self.dots_after(cycles)
        } else {
            self
        }
    }

    pub open spec fn write_lcdc(self, value: u8) -> PpuModel {
        let was_on = self.lcdc & 0x80 != 0;
        let now_on = value & 0x80 != 0;
        if was_on && !now_on {
            PpuModel {
                lcdc: value,
                ly: 0,
                dots: 0,
                mode: Mode::OamSearch,
                stat: (self.stat & 0xFC) | 2,
                ..self
            }
        } else {
            PpuModel { lcdc: value, ..self }
        }
    }

    pub open spec fn write_stat(self, value: u8) -> PpuModel {
        PpuModel { stat: (self.stat & 0x07) | (value & 0x78), ..self }
    }

    pub open spec fn write_lyc(self, value: u8) -> PpuModel {
        PpuModel { lyc: value, ..self }.update_lyc()
    }
}

/// How the STAT updates treat its mode bits.
pub proof fn lemma_stat_bits()
    by (bit_vector)
    ensures
        forall|x: u8, b: u8| b < 4 ==> #[trigger] ((x & 0xFC) | b) & 0x03 == b,
        forall|x: u8| #[trigger] (x | 0x04) & 0x03 == x & 0x03,
        forall|x: u8| #[trigger] (x & 0xFB) & 0x03 == x & 0x03,
        forall|x: u8, v: u8| #[trigger] ((x & 0x07) | (v & 0x78)) & 0x03 == x & 0x03,
        0u8 & 0x03 == 0,
{
}

pub proof fn lemma_dot_wf(p: PpuModel)
    requires
        p.wf(),
    ensures
        p.dot().wf(),
{
    lemma_stat_bits();
}

pub proof fn lemma_dots_after_wf(p: PpuModel, n: nat)
    requires
        p.wf(),
    ensures
        p.dots_after(n).wf(),
    decreases n,
{
    if n > 0 {
        lemma_dots_after_wf(p, (n - 1) as nat);
        lemma_dot_wf(p.dots_after((n - 1) as nat));
    }
}

/// Running `a` dots and then `b` dots is running `a + b` dots.
pub proof fn lemma_dots_after_add(p: PpuModel, a: nat, b: nat)
    ensures
        p.dots_after(a + b) == p.dots_after(a).dots_after(b),
    decreases b,
{
    if b > 0 {
        lemma_dots_after_add(p, a, (b - 1) as nat);
        assert((a + b - 1) as nat == a + (b - 1) as nat);
    }
}

/// Dots never touch LCDC.
proof fn lemma_dots_after_lcdc(p: PpuModel, n: nat)
    ensures
        p.dots_after(n).lcdc == p.lcdc,
    decreases n,
{
    if n > 0 {
        lemma_dots_after_lcdc(p, (n - 1) as nat);
    }
}

/// Within a line the dot counter advances and LY stays.
proof fn lemma_within_line(p: PpuModel, k: nat)
    requires
        p.wf(),
        p.dots + k < 456,
    ensures
        p.dots_after(k).wf(),
        p.dots_after(k).ly == p.ly,
        p.dots_after(k).dots == p.dots + k,
    decreases k,
{
    if k > 0 {
        lemma_within_line(p, (k - 1) as nat);
        lemma_dot_wf(p.dots_after((k - 1) as nat));
    }
}

/// The 456th dot of a line starts the next line (LY 153 is followed by 0).
proof fn lemma_line_end(q: PpuModel)
    requires
        q.wf(),
        q.dots == 455,
    ensures
        q.dot().wf(),
        q.dot().ly == (q.ly + 1) % 154,
        q.dot().dots == 0,
{
    lemma_dot_wf(q);
}

/// Stepping the PPU by `a` cycles and then by `b` cycles is stepping it by
/// `a + b` cycles.
pub proof fn law_stepped_add(p: PpuModel, a: nat, b: nat)
    ensures
        p.stepped(a + b) == p.stepped(a).stepped(b),
{
    lemma_dots_after_add(p, a, b);
    lemma_dots_after_lcdc(p, a);
}

/// With the LCD on, a scanline lasts 456 dots: stepping by 456 cycles moves
/// to the next line (after line 153 comes line 0) at the same dot.
pub proof fn law_line_period(p: PpuModel)
    requires
        p.wf(),
        p.lcd_enabled(),
    ensures
        p.stepped(456).wf(),
        p.stepped(456).ly == (p.ly + 1) % 154,
        p.stepped(456).dots == p.dots,
{
    let d = p.dots as nat;
    let n1 = (455 - d) as nat;
    lemma_within_line(p, n1);
    lemma_line_end(p.dots_after(n1));
    let r = p.dots_after(n1 + 1);
    lemma_within_line(r, d);
    lemma_dots_after_add(p, n1 + 1, d);
    assert(n1 + 1 + d == 456);
}

/// With the LCD on, `k` scanlines take `456 * k` cycles.
pub proof fn law_lines(p: PpuModel, k: nat)
    requires
        p.wf(),
        p.lcd_enabled(),
    ensures
        p.stepped(456 * k).wf(),
        p.stepped(456 * k).ly == (p.ly + k) % 154,
        p.stepped(456 * k).dots == p.dots,
        p.stepped(456 * k).lcd_enabled(),
    decreases k,
{
    if k > 0 {
        let k1 = (k - 1) as nat;
        law_lines(p, k1);
        let q = p.stepped(456 * k1);
        law_line_period(q);
        law_stepped_add(p, 456 * k1, 456);
        lemma_dots_after_lcdc(q, 456);
        assert(456 * k1 + 456 == 456 * k) by (nonlinear_arith)
            requires
                k1 + 1 == k,
        ;
        let x = p.ly + k1;
        assert(((x % 154) + 1) % 154 == (x + 1) % 154) by (nonlinear_arith)
            requires
                x >= 0,
        ;
    }
}

/// With the LCD on, a frame lasts 70224 cycles (154 lines of 456 dots):
/// after it LY and the dot counter are back where they were.
pub proof fn law_frame_period(p: PpuModel)
    requires
        p.wf(),
        p.lcd_enabled(),
    ensures
        p.stepped(70224).wf(),
        p.stepped(70224).ly == p.ly,
        p.stepped(70224).dots == p.dots,
{
    law_lines(p, 154);
    assert(456 * 154 == 70224);
}

/// STAT as read reports the current mode in its low two bits and always
/// has its top bit set; LY stays below 154.
pub proof fn law_stat_reports_mode(p: PpuModel)
    requires
        p.wf(),
    ensures
        p.ly <= 153,
        (p.stat | 0x80) & 0x03 == p.mode.spec_bits(),
        (p.stat | 0x80) & 0x80 == 0x80,
{
    let x = p.stat;
    assert((x | 0x80) & 0x03 == x & 0x03 && (x | 0x80) & 0x80 == 0x80) by (bit_vector);
}

/// The PPU is in V-Blank exactly on lines 144-153.
pub proof fn law_vblank_lines(p: PpuModel)
    requires
        p.wf(),
    ensures
        (p.mode == Mode::VBlank) == (p.ly >= 144),
{
}

/// LY=LYC: refreshing the comparison sets STAT bit 2 exactly when LY equals
/// LYC, and requests a STAT interrupt when they are equal and STAT bit 6
/// enables that source; with bit 6 clear no interrupt is requested that was
/// not already pending. Nothing but STAT bit 2 and the request changes.
pub proof fn law_lyc_compare(p: PpuModel)
    ensures
        (p.update_lyc().stat & 0x04 != 0) == (p.ly == p.lyc),
        p.update_lyc().stat & 0xFB == p.stat & 0xFB,
        p.ly == p.lyc && p.stat & 0x40 != 0 ==> p.update_lyc().stat_interrupt,
        p.stat & 0x40 == 0 ==> p.update_lyc().stat_interrupt == p.stat_interrupt,
        p.update_lyc() == (PpuModel {
            stat: p.update_lyc().stat,
            stat_interrupt: p.update_lyc().stat_interrupt,
            ..p
        }),
{
    let x = p.stat;
    assert((x | 0x04) & 0x04 != 0 && (x & 0xFB) & 0x04 == 0 && (x | 0x04) & 0xFB == x & 0xFB && (x
        & 0xFB) & 0xFB == x & 0xFB && (x | 0x04) & 0x40 == x & 0x40 && (x & 0xFB) & 0x40 == x
        & 0x40) by (bit_vector);
}

/// Whenever a dot moves LY onto the value of LYC while STAT bit 6 is set,
/// the PPU requests a STAT interrupt; with STAT bits 3-6 all clear a dot
/// never raises a request that was not pending.
pub proof fn law_lyc_interrupt_on_dot(p: PpuModel)
    requires
        p.wf(),
    ensures
        p.dot().ly != p.ly && p.dot().ly == p.lyc && p.stat & 0x40 != 0 ==> p.dot().stat_interrupt,
        p.stat & 0x78 == 0 ==> p.dot().stat_interrupt == p.stat_interrupt,
{
    lemma_stat_bit_facts();
}

/// How STAT's interrupt-source bits fare under the updates of a dot.
proof fn lemma_stat_bit_facts()
    by (bit_vector)
    ensures
        forall|x: u8, b: u8| #![trigger (x & 0xFC) | b] b <= 3 ==> ((x & 0xFC) | b) & 0x40 == x & 0x40,
        forall|x: u8, b: u8| #![trigger (x & 0xFC) | b] b <= 3 && x & 0x78 == 0 ==> ((x & 0xFC) | b)
            & 0x78 == 0,
        forall|y: u8| #![trigger y | 0x04] (y | 0x04) & 0x40 == y & 0x40,
        forall|y: u8| #![trigger y & 0xFB] (y & 0xFB) & 0x40 == y & 0x40,
        forall|y: u8| #![trigger y & 0x78] y & 0x78 == 0 ==> y & 0x40 == 0 && y & 0x20 == 0 && y & 0x10
            == 0 && y & 0x08 == 0,
{
}

// ---------------------------------------------------------------------------
// Rendering model
// ---------------------------------------------------------------------------
/// A palette maps colour `c` (0-3) to the shade held in its bits `2c` and
/// `2c + 1`.
pub proof fn law_palette_shade(color: u8, palette: u8)
    requires
        color < 4,
    ensures
        palette_shade(color, palette) == ((palette as int) / pow_four(color)) % 4,
{
    assert(palette & 0x03 == palette % 4 && (palette >> 2) & 0x03 == (palette / 4) % 4 && (palette
        >> 4) & 0x03 == (palette / 16) % 4 && (palette >> 6) & 0x03 == (palette / 64) % 4)
        by (bit_vector);
}

/// `4^c` for a colour `c` below 4.
pub open spec fn pow_four(c: u8) -> int {
    if c == 0 {
        1
    } else if c == 1 {
        4
    } else if c == 2 {
        16
    } else {
        64
    }
}


/// The 2-bit color of pixel (`x`, `y`) of the tile whose data starts at
/// `tile_addr`: bit `7 - x` of the two bytes of row `y`.
pub open spec fn tile_pixel(vram: Seq<u8>, tile_addr: u16, x: int, y: int) -> u8 {
    let row = tile_addr - 0x8000 + y * 2;
    let low = vram[row];
    let high = vram[row + 1];
    let bit = (7 - x) as u8;
    (((high >> bit) & 1) << 1) | ((low >> bit) & 1)
}

/// The shade of `color` under `palette`.
pub open spec fn palette_shade(color: u8, palette: u8) -> u8 {
    if color == 0 {
        palette & 0x03
    } else if color == 1 {
        (palette >> 2) & 0x03
    } else if color == 2 {
        (palette >> 4) & 0x03
    } else if color == 3 {
        (palette >> 6) & 0x03
    } else {
        0
    }
}

/// Address of the data of background/window tile `index` in the signed
/// (0x8800) addressing mode: tiles 0-127 at 0x9000, tiles 128-255 at 0x8800.
pub open spec fn signed_tile_addr(index: u8) -> u16 {
    if index < 128 {
        (0x9000 + index * 16) as u16
    } else {
        (0x8000 + index * 16) as u16
    }
}

impl PpuModel {
    pub open spec fn bg_window_enabled(self) -> bool {
        self.lcdc & 0x01 != 0
    }

    pub open spec fn sprites_enabled(self) -> bool {
        self.lcdc & 0x02 != 0
    }

    pub open spec fn sprite_height(self) -> u8 {
        if self.lcdc & 0x04 != 0 {
            16
        } else {
            8
        }
    }

    pub open spec fn bg_tile_map(self) -> u16 {
        if self.lcdc & 0x08 != 0 {
            0x9C00
        } else {
            0x9800
        }
    }

    pub open spec fn unsigned_tile_data(self) -> bool {
        self.lcdc & 0x10 != 0
    }

    pub open spec fn window_enabled(self) -> bool {
        self.lcdc & 0x20 != 0
    }

    pub open spec fn window_tile_map(self) -> u16 {
        if self.lcdc & 0x40 != 0 {
            0x9C00
        } else {
            0x9800
        }
    }

    /// Address of the data of background/window tile `index`.
    pub open spec fn tile_data_addr(self, index: u8) -> u16 {
        if self.unsigned_tile_data() {
            (0x8000 + index * 16) as u16
        } else {
            signed_tile_addr(index)
        }
    }

    /// Shade of the pixel at (`tile_x`, `tile_y`) of the 256x256 map at
    /// `map`, under the background palette.
    pub open spec fn map_shade(self, vram: Seq<u8>, map: u16, tile_x: int, tile_y: int) -> u8 {
        let map_addr = map + (tile_y / 8 % 32) * 32 + tile_x / 8 % 32;
        let index = vram[map_addr - 0x8000];
        palette_shade(
            tile_pixel(vram, self.tile_data_addr(index), tile_x % 8, tile_y % 8),
            self.bgp,
        )
    }

    /// Background shade of screen pixel (`x`, `line`).
    pub open spec fn background_shade(self, vram: Seq<u8>, line: int, x: int) -> u8 {
        self.map_shade(
            vram,
            self.bg_tile_map(),
            (self.scx + x) % 256,
            (self.scy + line) % 256,
        )
    }

    /// First screen column covered by the window.
    pub open spec fn window_start(self) -> int {
        if self.wx >= 7 {
            self.wx - 7
        } else {
            0
        }
    }

    /// The row after drawing the window over `row`.
    pub open spec fn window_row(self, vram: Seq<u8>, line: int, row: Seq<u8>) -> Seq<u8> {
        if self.wy > line || self.window_start() >= 160 {
            row
        } else {
            Seq::new(
                160,
                |x: int|
                    if x >= self.window_start() {
                        self.map_shade(
                            vram,
                            self.window_tile_map(),
                            x - self.window_start(),
                            line - self.wy,
                        )
                    } else {
                        row[x]
                    },
            )
        }
    }
}

/// The sprite stored in OAM entry `i`.
pub open spec fn oam_sprite(oam: Seq<u8>, i: int) -> SpriteData {
    SpriteData {
        y: (oam[4 * i] - 16) as i16,
        x: (oam[4 * i + 1] - 8) as i16,
        tile_index: oam[4 * i + 2],
        attributes: oam[4 * i + 3],
    }
}

/// The coordinates of `sprite` are those of an OAM entry.
pub open spec fn sprite_in_oam_range(sprite: SpriteData) -> bool {
    -16 <= sprite.y <= 239 && -8 <= sprite.x <= 247
}

/// Whether `sprite` covers `line` for sprites of the given height.
pub open spec fn sprite_on_line(sprite: SpriteData, line: int, height: int) -> bool {
    sprite.y <= line < sprite.y + height
}

/// The sprites among the first `n` OAM entries that cover `line`, in OAM order.
pub open spec fn sprites_on_line(oam: Seq<u8>, line: int, height: int, n: nat) -> Seq<SpriteData>
    decreases n,
{
    if n == 0 {
        Seq::empty()
    } else {
        let s = sprites_on_line(oam, line, height, (n - 1) as nat);
        let sprite = oam_sprite(oam, n - 1);
        if sprite_on_line(sprite, line, height) {
            s.push(sprite)
        } else {
            s
        }
    }
}

/// At most ten sprites on `line`: the first ones in OAM order.
pub open spec fn scanned_sprites(oam: Seq<u8>, line: int, height: int) -> Seq<SpriteData> {
    let all = sprites_on_line(oam, line, height, 40);
    if all.len() <= 10 {
        all
    } else {
        all.take(10)
    }
}

pub proof fn lemma_sprites_on_line_prefix(oam: Seq<u8>, line: int, height: int, m: nat, n: nat)
    requires
        m <= n,
    ensures
        sprites_on_line(oam, line, height, m).len() <= sprites_on_line(oam, line, height, n).len(),
        sprites_on_line(oam, line, height, m) =~= sprites_on_line(oam, line, height, n).take(
            sprites_on_line(oam, line, height, m).len() as int,
        ),
    decreases n,
{
    if m < n {
        lemma_sprites_on_line_prefix(oam, line, height, m, (n - 1) as nat);
    }
}

/// Row offset inside a sprite, computed as the hardware-independent
/// `usize` difference between the line and the sprite's top.
pub open spec fn sprite_row_offset(sprite: SpriteData, line: int) -> usize {
    ((line - sprite.y) as i16) as usize
}

impl PpuModel {
    /// Drawing `sprite` is defined: the flipped row offset and the tile number
    /// of its lower half stay in range.
    pub open spec fn sprite_draw_defined(self, sprite: SpriteData, line: int) -> bool {
        let h = self.sprite_height();
        let y_offset = sprite_row_offset(sprite, line);
        sprite.x < -7 || sprite.x >= 160 || ({
            &&& (sprite.attributes & 0x40 != 0 ==> y_offset <= h - 1)
            &&& (sprite.attributes & 0x40 == 0 && y_offset >= 8 ==> sprite.tile_index < 255
                || h == 16)
        })
    }

    /// Tile row and tile number of the sprite's pixels on `line`.
    pub open spec fn sprite_tile_addr(self, sprite: SpriteData, line: int) -> (u16, int) {
        let h = self.sprite_height();
        let raw = sprite_row_offset(sprite, line);
        let y_offset: int = if sprite.attributes & 0x40 != 0 {
            h - 1 - raw
        } else {
            raw as int
        };
        let index = if h == 16 {
            sprite.tile_index & 0xFE
        } else {
            sprite.tile_index
        };
        let tile = if y_offset >= 8 {
            index + 1
        } else {
            index as int
        };
        ((0x8000 + tile * 16) as u16, y_offset % 8)
    }

    /// The row after drawing `sprite` over `row`.
    pub open spec fn draw_sprite(self, vram: Seq<u8>, line: int, row: Seq<u8>, sprite: SpriteData) -> Seq<u8> {
        if sprite.x < -7 || sprite.x >= 160 {
            row
        } else {
            let (tile_addr, tile_y) = self.sprite_tile_addr(sprite, line);
            let palette = if sprite.attributes & 0x10 != 0 {
                self.obp1
            } else {
                self.obp0
            };
            let x_flip = sprite.attributes & 0x20 != 0;
            let bg_priority = sprite.attributes & 0x80 != 0;
            Seq::new(
                160,
                |sx: int|
                    {
                        let px = sx - sprite.x;
                        if 0 <= px < 8 {
                            let tile_x = if x_flip {
                                7 - px
                            } else {
                                px
                            };
                            let color = tile_pixel(vram, tile_addr, tile_x, tile_y);
                            if color == 0 || (bg_priority && row[sx] != 0) {
                                row[sx]
                            } else {
                                palette_shade(color, palette)
                            }
                        } else {
                            row[sx]
                        }
                    },
            )
        }
    }

    /// The tile row that a sprite shows on `line`, `d` lines below its top
    /// (`d` below its height): row `d`, or row `height - 1 - d` when the
    /// sprite is flipped vertically (attribute bit 6). An 8x8 sprite takes
    /// that row of its tile; an 8x16 sprite ignores bit 0 of its tile index
    /// and takes rows 8-15 from the tile after it.
    pub proof fn law_sprite_row(self, sprite: SpriteData, line: int)
        requires
            0 <= line - sprite.y < self.sprite_height(),
        ensures
            ({
                let d = line - sprite.y;
                let h = self.sprite_height() as int;
                let row = if sprite.attributes & 0x40 != 0 {
                    h - 1 - d
                } else {
                    d
                };
                let t = self.sprite_tile_addr(sprite, line);
                &&& h == 8 ==> t.0 == 0x8000 + 16 * sprite.tile_index && t.1 == row
                &&& h == 16 ==> t.0 == 0x8000 + 16 * (sprite.tile_index - sprite.tile_index % 2 + row
                    / 8) && t.1 == row % 8
            }),
    {
        let i = sprite.tile_index;
        assert(i & 0xFE == i - i % 2) by (bit_vector);
    }

    /// Drawing a sprite: a pixel of the sprite that shows (its colour is not
    /// 0, and the background does not take priority over it there) gets the
    /// colour's shade under OBP1 when attribute bit 4 is set and under OBP0
    /// when it is clear; attribute bit 5 mirrors the sprite horizontally and
    /// bit 7 hides it behind non-zero background shades. Every other pixel
    /// keeps its shade.
    pub proof fn law_sprite_pixel(
        self,
        vram: Seq<u8>,
        line: int,
        row: Seq<u8>,
        sprite: SpriteData,
        sx: int,
    )
        requires
            row.len() == 160,
            -7 <= sprite.x < 160,
            0 <= sx < 160,
        ensures
            ({
                let out = self.draw_sprite(vram, line, row, sprite);
                let px = sx - sprite.x;
                let tile_addr = self.sprite_tile_addr(sprite, line).0;
                let tile_y = self.sprite_tile_addr(sprite, line).1;
                let tile_x = if sprite.attributes & 0x20 != 0 {
                    7 - px
                } else {
                    px
                };
                let color = tile_pixel(vram, tile_addr, tile_x, tile_y);
                let hidden = sprite.attributes & 0x80 != 0 && row[sx] != 0;
                let shows = 0 <= px < 8 && color != 0 && !hidden;
                &&& out.len() == 160
                &&& shows && sprite.attributes & 0x10 != 0 ==> out[sx] == palette_shade(color, self.obp1)
                &&& shows && sprite.attributes & 0x10 == 0 ==> out[sx] == palette_shade(color, self.obp0)
                &&& !shows ==> out[sx] == row[sx]
            }),
    {
    }

    /// The row after drawing `sprites`, last one first, so that earlier
    /// sprites end on top.
    pub open spec fn draw_sprites(self, vram: Seq<u8>, line: int, row: Seq<u8>, sprites: Seq<SpriteData>) -> Seq<u8>
        decreases sprites.len(),
    {
        if sprites.len() == 0 {
            row
        } else {
            self.draw_sprites(
                vram,
                line,
                self.draw_sprite(vram, line, row, sprites.last()),
                sprites.drop_last(),
            )
        }
    }

    /// Sprite buffer used to draw `line`: rescanned when empty.
    pub open spec fn sprites_for(self, oam: Seq<u8>) -> Seq<SpriteData> {
        if self.sprites.len() == 0 {
            scanned_sprites(oam, self.ly as int, self.sprite_height() as int)
        } else {
            self.sprites
        }
    }

    /// Rendering the current line is defined.
    pub open spec fn render_defined(self, oam: Seq<u8>) -> bool {
        forall|i: int|
            0 <= i < self.sprites_for(oam).len() ==> self.sprite_draw_defined(
                #[trigger] self.sprites_for(oam)[i],
                self.ly as int,
            )
    }

    /// The shades of the current line.
    pub open spec fn line_shades(self, vram: Seq<u8>, oam: Seq<u8>) -> Seq<u8> {
        let line = self.ly as int;
        let row0 = Seq::new(160, |x: int| 0u8);
        let row1 = if self.bg_window_enabled() {
            Seq::new(160, |x: int| self.background_shade(vram, line, x))
        } else {
            row0
        };
        let row2 = if self.window_enabled() && self.bg_window_enabled() {
            self.window_row(vram, line, row1)
        } else {
            row1
        };
        if self.sprites_enabled() {
            self.draw_sprites(vram, line, row2, self.sprites_for(oam))
        } else {
            row2
        }
    }

    /// The state after rendering the current line.
    pub open spec fn rendered(self, vram: Seq<u8>, oam: Seq<u8>) -> PpuModel {
        if !self.lcd_enabled() || self.ly >= 144 {
            self
        } else {
            let line = self.ly as int;
            let row = self.line_shades(vram, oam);
            PpuModel {
                framebuffer: self.framebuffer.update(line, row),
                sprites: if self.sprites_enabled() {
                    self.sprites_for(oam)
                } else {
                    self.sprites
                },
                ..self
            }
        }
    }
}

proof fn lemma_tile_pixel_bits(high: u8, low: u8, bit: u8)
    ensures
        (((high >> bit) & 1) << 1) | ((low >> bit) & 1) < 4,
{
    assert((((high >> bit) & 1) << 1) | ((low >> bit) & 1) < 4) by (bit_vector);
}

impl Ppu {
    /// The power-on state.
    pub open spec fn new_model() -> PpuModel {
        PpuModel {
            ly: 0,
            dots: 252,
            mode: Mode::HBlank,
            lcdc: 0x91,
            stat: 0,
            scy: 0,
            scx: 0,
            lyc: 0,
            bgp: 0xFC,
            obp0: 0xFF,
            obp1: 0xFF,
            wy: 0,
            wx: 0,
            framebuffer: Seq::new(144, |y: int| Seq::new(160, |x: int| 0u8)),
            sprites: Seq::empty(),
            vblank_interrupt: false,
            stat_interrupt: false,
            should_scan_oam: false,
            should_render_scanline: false,
        }
    }

    pub fn new() -> (r: Self)
        ensures
            r@ == Self::new_model(),
            r@.wf(),
    {
        let r = Self {
            ly: 0,
            dots: 252,
            mode: Mode::HBlank,
            lcdc: 0x91,
            stat: 0,
            scy: 0,
            scx: 0,
            lyc: 0,
            bgp: 0xFC,
            obp0: 0xFF,
            obp1: 0xFF,
            wy: 0,
            wx: 0,
            framebuffer: [[0u8; 160]; 144],
            sprite_buffer: Vec::new(),
            vblank_interrupt: false,
            stat_interrupt: false,
            should_scan_oam: false,
            should_render_scanline: false,
        };
        assert forall|y: int| 0 <= y < 144 implies r@.framebuffer[y] =~= Seq::new(
            160,
            |x: int| 0u8,
        ) by {
            assert(r.framebuffer@[y]@ =~= Seq::new(160, |x: int| 0u8));
        }
        assert(r@.framebuffer =~= Seq::new(144, |y: int| Seq::new(160, |x: int| 0u8)));
        assert(r@.sprites =~= Seq::<SpriteData>::empty());
        assert(0u8 & 0x03 == 0) by (bit_vector);
        r
    }

    /// Advance the PPU by `cycles` dots.
    pub fn step(&mut self, cycles: u64)
        requires
            old(self)@.wf(),
        ensures
            final(self)@ == old(self)@.stepped(cycles as nat),
            final(self)@.wf(),
    {
        if !self.is_lcd_enabled() {
            return;
        }
        let ghost start = self@;
        let mut i: u64 = 0;
        while i < cycles
            invariant
                i <= cycles,
                start.wf(),
                self@ == start.dots_after(i as nat),
                self@.wf(),
            decreases cycles - i,
        {
            self.dot();
            i = i + 1;
        }
    }

    /// Advance the PPU by one dot.
    fn dot(&mut self)
        requires
            old(self)@.wf(),
        ensures
            final(self)@ == old(self)@.dot(),
            final(self)@.wf(),
    {
        proof {
            lemma_dot_wf(self@);
        }
        self.dots = self.dots + 1;
        match self.mode {
            Mode::OamSearch => {
                if self.dots == 80 {
                    self.set_mode(Mode::PixelTransfer);
                }
            },
            Mode::PixelTransfer => {
                if self.dots == 252 {
                    self.should_render_scanline = true;
                    self.set_mode(Mode::HBlank);
                }
            },
            Mode::HBlank => {
                if self.dots == 456 {
                    self.dots = 0;
                    self.ly = self.ly + 1;
                    if self.ly == 144 {
                        self.set_mode(Mode::VBlank);
                        self.vblank_interrupt = true;
                    } else {
                        self.should_scan_oam = true;
                        self.set_mode(Mode::OamSearch);
                    }
                    self.update_lyc_flag();
                }
            },
            Mode::VBlank => {
                if self.dots == 456 {
                    self.dots = 0;
                    self.ly = self.ly + 1;
                    if self.ly == 154 {
                        self.ly = 0;
                        self.should_scan_oam = true;
                        self.set_mode(Mode::OamSearch);
                    }
                    self.update_lyc_flag();
                }
            },
        }
    }

    fn set_mode(&mut self, mode: Mode)
        ensures
            final(self)@ == old(self)@.set_mode(mode),
    {
        let old_mode = self.mode;
        self.mode = mode;
        self.stat = (self.stat & 0xFC) | mode.bits();
        let stat_int = match mode {
            Mode::HBlank => self.stat & 0x08 != 0,
            Mode::VBlank => self.stat & 0x10 != 0,
            Mode::OamSearch => self.stat & 0x20 != 0,
            Mode::PixelTransfer => false,
        };
        if stat_int && old_mode != mode {
            self.stat_interrupt = true;
        }
    }

    fn update_lyc_flag(&mut self)
        ensures
            final(self)@ == old(self)@.update_lyc(),
    {
        let lyc_eq_ly = self.ly == self.lyc;
        if lyc_eq_ly {
            self.stat = self.stat | 0x04;
        } else {
            self.stat = self.stat & 0xFB;
        }
        if lyc_eq_ly && (self.stat & 0x40 != 0) {
            self.stat_interrupt = true;
        }
    }

    pub fn is_lcd_enabled(&self) -> (r: bool)
        ensures
            r == self@.lcd_enabled(),
    {
        self.lcdc & 0x80 != 0
    }

    pub fn mode(&self) -> (r: Mode)
        ensures
            r == self@.mode,
    {
        self.mode
    }

    pub fn is_vblank(&self) -> (r: bool)
        ensures
            r == (self@.mode == Mode::VBlank),
    {
        self.mode == Mode::VBlank
    }

    pub fn framebuffer(&self) -> (r: &Framebuffer)
        ensures
            frame_rows(*r) == self@.framebuffer,
    {
        &self.framebuffer
    }

    pub fn read_lcdc(&self) -> (r: u8)
        ensures
            r == self@.lcdc,
    {
        self.lcdc
    }

    /// Write LCDC; turning the LCD off resets LY, the dot counter and the mode.
    pub fn write_lcdc(&mut self, value: u8)
        requires
            old(self)@.wf(),
        ensures
            final(self)@ == old(self)@.write_lcdc(value),
            final(self)@.wf(),
    {
        proof {
            lemma_stat_bits();
        }
        let lcd_was_on = self.lcdc & 0x80 != 0;
        let lcd_now_on = value & 0x80 != 0;
        self.lcdc = value;
        if lcd_was_on && !lcd_now_on {
            self.ly = 0;
            self.dots = 0;
            self.mode = Mode::OamSearch;
            self.stat = (self.stat & 0xFC) | 2;
        }
    }

    /// STAT with its unused top bit set.
    pub fn read_stat(&self) -> (r: u8)
        ensures
            r == self@.stat | 0x80,
    {
        self.stat | 0x80
    }

    /// Only bits 3-6 of STAT are writable.
    pub fn write_stat(&mut self, value: u8)
        ensures
            final(self)@ == old(self)@.write_stat(value),
    {
        self.stat = (self.stat & 0x07) | (value & 0x78);
    }

    pub fn read_scy(&self) -> (r: u8)
        ensures
            r == self@.scy,
    {
        self.scy
    }

    pub fn write_scy(&mut self, value: u8)
        ensures
            final(self)@ == (PpuModel { scy: value, ..old(self)@ }),
    {
        self.scy = value;
    }

    pub fn read_scx(&self) -> (r: u8)
        ensures
            r == self@.scx,
    {
        self.scx
    }

    pub fn write_scx(&mut self, value: u8)
        ensures
            final(self)@ == (PpuModel { scx: value, ..old(self)@ }),
    {
        self.scx = value;
    }

    pub fn read_ly(&self) -> (r: u8)
        ensures
            r == self@.ly,
    {
        self.ly
    }

    pub fn read_lyc(&self) -> (r: u8)
        ensures
            r == self@.lyc,
    {
        self.lyc
    }

    /// Write LYC and refresh the LY=LYC flag.
    pub fn write_lyc(&mut self, value: u8)
        ensures
            final(self)@ == old(self)@.write_lyc(value),
    {
        self.lyc = value;
        self.update_lyc_flag();
    }

    pub fn read_bgp(&self) -> (r: u8)
        ensures
            r == self@.bgp,
    {
        self.bgp
    }

    pub fn write_bgp(&mut self, value: u8)
        ensures
            final(self)@ == (PpuModel { bgp: value, ..old(self)@ }),
    {
        self.bgp = value;
    }

    pub fn read_obp0(&self) -> (r: u8)
        ensures
            r == self@.obp0,
    {
        self.obp0
    }

    pub fn write_obp0(&mut self, value: u8)
        ensures
            final(self)@ == (PpuModel { obp0: value, ..old(self)@ }),
    {
        self.obp0 = value;
    }

    pub fn read_obp1(&self) -> (r: u8)
        ensures
            r == self@.obp1,
    {
        self.obp1
    }

    pub fn write_obp1(&mut self, value: u8)
        ensures
            final(self)@ == (PpuModel { obp1: value, ..old(self)@ }),
    {
        self.obp1 = value;
    }

    pub fn read_wy(&self) -> (r: u8)
        ensures
            r == self@.wy,
    {
        self.wy
    }

    pub fn write_wy(&mut self, value: u8)
        ensures
            final(self)@ == (PpuModel { wy: value, ..old(self)@ }),
    {
        self.wy = value;
    }

    pub fn read_wx(&self) -> (r: u8)
        ensures
            r == self@.wx,
    {
        self.wx
    }

    pub fn write_wx(&mut self, value: u8)
        ensures
            final(self)@ == (PpuModel { wx: value, ..old(self)@ }),
    {
        self.wx = value;
    }
}

impl Ppu {
    fn bg_window_enabled(&self) -> (r: bool)
        ensures
            r == self@.bg_window_enabled(),
    {
        self.lcdc & 0x01 != 0
    }

    fn sprites_enabled(&self) -> (r: bool)
        ensures
            r == self@.sprites_enabled(),
    {
        self.lcdc & 0x02 != 0
    }

    fn sprite_size(&self) -> (r: u8)
        ensures
            r == self@.sprite_height(),
    {
        if self.lcdc & 0x04 != 0 {
            16
        } else {
            8
        }
    }

    fn bg_tile_map_area(&self) -> (r: u16)
        ensures
            r == self@.bg_tile_map(),
    {
        if self.lcdc & 0x08 != 0 {
            0x9C00
        } else {
            0x9800
        }
    }

    /// Base of the background/window tile data and whether tile indices are
    /// signed (based at 0x9000).
    fn bg_window_tile_data_area(&self) -> (r: (u16, bool))
        ensures
            r.0 == (if self@.unsigned_tile_data() { 0x8000u16 } else { 0x8800u16 }),
            r.1 == !self@.unsigned_tile_data(),
    {
        if self.lcdc & 0x10 != 0 {
            (0x8000, false)
        } else {
            (0x8800, true)
        }
    }

    fn window_enabled(&self) -> (r: bool)
        ensures
            r == self@.window_enabled(),
    {
        self.lcdc & 0x20 != 0
    }

    fn window_tile_map_area(&self) -> (r: u16)
        ensures
            r == self@.window_tile_map(),
    {
        if self.lcdc & 0x40 != 0 {
            0x9C00
        } else {
            0x9800
        }
    }

    /// Address of the data of background/window tile `index`.
    fn tile_data_addr(&self, index: u8) -> (r: u16)
        ensures
            r == self@.tile_data_addr(index),
            0x8000 <= r <= 0x97F0,
    {
        let (base, is_signed) = self.bg_window_tile_data_area();
        if is_signed {
            if index < 128 {
                0x9000 + index as u16 * 16
            } else {
                0x8000 + index as u16 * 16
            }
        } else {
            base + index as u16 * 16
        }
    }

    fn get_tile_pixel(&self, vram: &[u8], tile_addr: u16, x: usize, y: usize) -> (r: u8)
        requires
            0x8000 <= tile_addr,
            tile_addr + y * 2 + 1 <= 0xFFFF,
            tile_addr - 0x8000 + y * 2 + 1 < vram@.len(),
            x < 8,
            y < 8,
        ensures
            r == tile_pixel(vram@, tile_addr, x as int, y as int),
            r < 4,
    {
        let row_addr = tile_addr + (y as u16 * 2);
        let low_byte = vram[(row_addr - 0x8000) as usize];
        let high_byte = vram[(row_addr - 0x8000 + 1) as usize];
        let bit_pos = (7 - x) as u8;
        let low_bit = (low_byte >> bit_pos) & 1;
        let high_bit = (high_byte >> bit_pos) & 1;
        proof {
            lemma_tile_pixel_bits(high_byte, low_byte, bit_pos);
        }
        (high_bit << 1) | low_bit
    }

    fn apply_palette(&self, color: u8, palette: u8) -> (r: u8)
        ensures
            r == palette_shade(color, palette),
    {
        match color {
            0 => palette & 0x03,
            1 => (palette >> 2) & 0x03,
            2 => (palette >> 4) & 0x03,
            3 => (palette >> 6) & 0x03,
            _ => 0,
        }
    }

    /// Shade of pixel (`tile_x`, `tile_y`) of the tile map at `map`.
    fn map_shade(&self, vram: &[u8], map: u16, tile_x: usize, tile_y: usize) -> (r: u8)
        requires
            map == 0x9800 || map == 0x9C00,
            tile_x < 256,
            tile_y < 256,
            vram@.len() >= 0x2000,
        ensures
            r == self@.map_shade(vram@, map, tile_x as int, tile_y as int),
    {
        let tile_map_addr = map + ((tile_y / 8 % 32) * 32) as u16 + (tile_x / 8 % 32) as u16;
        let tile_index = vram[(tile_map_addr - 0x8000) as usize];
        let tile_addr = self.tile_data_addr(tile_index);
        let color = self.get_tile_pixel(vram, tile_addr, tile_x % 8, tile_y % 8);
        self.apply_palette(color, self.bgp)
    }

    #[verifier::spinoff_prover]
    #[verifier::rlimit(40)]
    fn render_background(&self, line: usize, vram: &[u8], row: &mut [u8; 160])
        requires
            line < 144,
            vram@.len() >= 0x2000,
        ensures
            final(row)@ == Seq::new(160, |x: int| self@.background_shade(vram@, line as int, x)),
    {
        let tile_map_base = self.bg_tile_map_area();
        let bg_y = self.scy.wrapping_add(line as u8) as usize;
        let mut x: usize = 0;
        while x < SCREEN_WIDTH
            invariant
                x <= 160,
                line < 144,
                vram@.len() >= 0x2000,
                tile_map_base == self@.bg_tile_map(),
                bg_y == (self@.scy + line) % 256,
                forall|i: int| 0 <= i < x ==> row@[i] == self@.background_shade(vram@, line as int, i),
            decreases 160 - x,
        {
            let bg_x = self.scx.wrapping_add(x as u8) as usize;
            row[x] = self.map_shade(vram, tile_map_base, bg_x, bg_y);
            x = x + 1;
        }
        assert(row@ =~= Seq::new(160, |x: int| self@.background_shade(vram@, line as int, x)));
    }

    fn render_window(&self, line: usize, vram: &[u8], row: &mut [u8; 160])
        requires
            line < 144,
            vram@.len() >= 0x2000,
        ensures
            final(row)@ == self@.window_row(vram@, line as int, old(row)@),
    {
        if self.wy as usize > line {
            return;
        }
        let window_x_start: u8 = if self.wx >= 7 {
            self.wx - 7
        } else {
            0
        };
        if window_x_start >= 160 {
            return;
        }
        let tile_map_base = self.window_tile_map_area();
        let window_y = line - self.wy as usize;
        let ghost row0 = row@;
        let mut screen_x: usize = window_x_start as usize;
        while screen_x < SCREEN_WIDTH
            invariant
                window_x_start as int == self@.window_start(),
                window_x_start <= screen_x <= 160,
                line < 144,
                self@.wy <= line,
                window_y == line - self@.wy,
                vram@.len() >= 0x2000,
                tile_map_base == self@.window_tile_map(),
                forall|i: int|
                    0 <= i < 160 ==> #[trigger] row@[i] == if window_x_start <= i < screen_x {
                        self@.map_shade(
                            vram@,
                            self@.window_tile_map(),
                            i - window_x_start,
                            line - self@.wy,
                        )
                    } else {
                        row0[i]
                    },
            decreases 160 - screen_x,
        {
            let window_x = screen_x - window_x_start as usize;
            row[screen_x] = self.map_shade(vram, tile_map_base, window_x, window_y);
            screen_x = screen_x + 1;
        }
        assert(row@ =~= self@.window_row(vram@, line as int, row0));
    }

    /// Select up to ten sprites covering the current line, in OAM order.
    pub fn scan_oam(&mut self, oam: &[u8])
        requires
            old(self)@.wf(),
            oam@.len() >= 0xA0,
        ensures
            final(self)@ == (PpuModel {
                sprites: scanned_sprites(oam@, old(self)@.ly as int, old(self)@.sprite_height() as int),
                ..old(self)@
            }),
            final(self)@.wf(),
    {
        let sprites = scan_line(oam, self.ly, self.sprite_size());
        self.sprite_buffer = sprites;
    }

    /// Whether `sprite` can be drawn on `line` with the current sprite
    /// height.
    fn sprite_drawable(&self, sprite: SpriteData, line: u8) -> (r: bool)
        requires
            sprite_in_oam_range(sprite),
        ensures
            r == self@.sprite_draw_defined(sprite, line as int),
    {
        if sprite.x < -7 || sprite.x >= 160 {
            return true;
        }
        let h = self.sprite_size();
        let y_offset = (line as i16 - sprite.y) as usize;
        let flipped = sprite.attributes & 0x40 != 0;
        (!flipped || y_offset <= h as usize - 1) && (flipped || y_offset < 8 || sprite.tile_index < 255
            || h == 16)
    }

    /// Whether all of `sprites` can be drawn on the current line.
    fn all_drawable(&self, sprites: &Vec<SpriteData>) -> (r: bool)
        requires
            forall|k: int| 0 <= k < sprites@.len() ==> sprite_in_oam_range(#[trigger] sprites@[k]),
        ensures
            r == (forall|k: int|
                0 <= k < sprites@.len() ==> self@.sprite_draw_defined(
                    #[trigger] sprites@[k],
                    self@.ly as int,
                )),
    {
        let mut i: usize = 0;
        while i < sprites.len()
            invariant
                i <= sprites@.len(),
                forall|k: int| 0 <= k < sprites@.len() ==> sprite_in_oam_range(#[trigger] sprites@[k]),
                forall|k: int|
                    0 <= k < i ==> self@.sprite_draw_defined(#[trigger] sprites@[k], self@.ly as int),
            decreases sprites@.len() - i,
        {
            if !self.sprite_drawable(sprites[i], self.ly) {
                return false;
            }
            i = i + 1;
        }
        true
    }

    /// Whether rendering the current line is defined, after a fresh OAM
    /// scan when `rescan` holds.
    pub fn can_render(&self, oam: &[u8], rescan: bool) -> (r: bool)
        requires
            self@.wf(),
            oam@.len() >= 0xA0,
        ensures
            r == (if rescan {
                PpuModel {
                    sprites: scanned_sprites(oam@, self@.ly as int, self@.sprite_height() as int),
                    ..self@
                }
            } else {
                self@
            }).render_defined(oam@),
    {
        let ghost q = if rescan {
            PpuModel {
                sprites: scanned_sprites(oam@, self@.ly as int, self@.sprite_height() as int),
                ..self@
            }
        } else {
            self@
        };
        if rescan || self.sprite_buffer.len() == 0 {
            let sprites = scan_line(oam, self.ly, self.sprite_size());
            let r = self.all_drawable(&sprites);
            proof {
                assert(q.sprites_for(oam@) == sprites@);
                assert(r == q.render_defined(oam@)) by {
                    if r {
                        assert forall|i: int| 0 <= i < q.sprites_for(oam@).len() implies q.sprite_draw_defined(
                            #[trigger] q.sprites_for(oam@)[i],
                            q.ly as int,
                        ) by {
                            assert(self@.sprite_draw_defined(sprites@[i], self@.ly as int));
                        }
                    } else {
                        let k = choose|k: int|
                            0 <= k < sprites@.len() && !self@.sprite_draw_defined(
                                #[trigger] sprites@[k],
                                self@.ly as int,
                            );
                        assert(!q.sprite_draw_defined(q.sprites_for(oam@)[k], q.ly as int));
                    }
                }
            }
            r
        } else {
            let r = self.all_drawable(&self.sprite_buffer);
            proof {
                assert(q.sprites_for(oam@) == self.sprite_buffer@);
                if !r {
                    let k = choose|k: int|
                        0 <= k < self.sprite_buffer@.len() && !self@.sprite_draw_defined(
                            #[trigger] self.sprite_buffer@[k],
                            self@.ly as int,
                        );
                    assert(!q.sprite_draw_defined(q.sprites_for(oam@)[k], q.ly as int));
                }
            }
            r
        }
    }

    fn draw_sprite(&self, line: usize, vram: &[u8], row: &mut [u8; 160], sprite: SpriteData)
        requires
            line < 144,
            vram@.len() >= 0x2000,
            sprite_in_oam_range(sprite),
            self@.sprite_draw_defined(sprite, line as int),
        ensures
            final(row)@ == self@.draw_sprite(vram@, line as int, old(row)@, sprite),
    {
        if sprite.x < -7 || sprite.x >= 160 {
            return;
        }
        let sprite_height = self.sprite_size();
        let mut y_offset = (line as i16 - sprite.y) as usize;
        let y_flip = sprite.attributes & 0x40 != 0;
        if y_flip {
            y_offset = (sprite_height as usize - 1) - y_offset;
        }
        let tile_index = if sprite_height == 16 {
            sprite.tile_index & 0xFE
        } else {
            sprite.tile_index
        };
        proof {
            let t = sprite.tile_index;
            assert(t & 0xFE < 255) by (bit_vector);
        }
        let tile_num = if y_offset >= 8 {
            tile_index + 1
        } else {
            tile_index
        };
        let tile_y_offset = y_offset % 8;
        let tile_addr = 0x8000 + (tile_num as u16 * 16);
        assert((tile_addr, tile_y_offset as int) == self@.sprite_tile_addr(sprite, line as int));
        let palette = if sprite.attributes & 0x10 != 0 {
            self.obp1
        } else {
            self.obp0
        };
        let x_flip = sprite.attributes & 0x20 != 0;
        let bg_priority = sprite.attributes & 0x80 != 0;
        let ghost row0 = row@;
        let ghost new_row = self@.draw_sprite(vram@, line as int, row0, sprite);
        let mut pixel_x: i16 = 0;
        while pixel_x < 8
            invariant
                0 <= pixel_x <= 8,
                -7 <= sprite.x < 160,
                line < 144,
                vram@.len() >= 0x2000,
                0x8000 <= tile_addr <= 0x8FF0,
                tile_y_offset < 8,
                new_row == self@.draw_sprite(vram@, line as int, row0, sprite),
                (tile_addr, tile_y_offset as int) == self@.sprite_tile_addr(sprite, line as int),
                palette == (if sprite.attributes & 0x10 != 0 { self@.obp1 } else { self@.obp0 }),
                x_flip == (sprite.attributes & 0x20 != 0),
                bg_priority == (sprite.attributes & 0x80 != 0),
                forall|i: int|
                    0 <= i < 160 ==> #[trigger] row@[i] == if sprite.x <= i < sprite.x + pixel_x {
                        new_row[i]
                    } else {
                        row0[i]
                    },
            decreases 8 - pixel_x,
        {
            let screen_x = sprite.x + pixel_x;
            if screen_x >= 0 && screen_x < 160 {
                let tile_x_offset = if x_flip {
                    7 - pixel_x as usize
                } else {
                    pixel_x as usize
                };
                let color = self.get_tile_pixel(vram, tile_addr, tile_x_offset, tile_y_offset);
                if color != 0 && !(bg_priority && row[screen_x as usize] != 0) {
                    row[screen_x as usize] = self.apply_palette(color, palette);
                }
            }
            pixel_x = pixel_x + 1;
        }
        assert(row@ =~= new_row);
    }

    fn render_sprites(&mut self, line: usize, vram: &[u8], oam: &[u8], row: &mut [u8; 160])
        requires
            old(self)@.wf(),
            line == old(self)@.ly,
            line < 144,
            vram@.len() >= 0x2000,
            oam@.len() >= 0xA0,
            old(self)@.render_defined(oam@),
        ensures
            final(self)@ == (PpuModel { sprites: old(self)@.sprites_for(oam@), ..old(self)@ }),
            final(self)@.wf(),
            final(row)@ == old(self)@.draw_sprites(
                vram@,
                line as int,
                old(row)@,
                old(self)@.sprites_for(oam@),
            ),
    {
        if self.sprite_buffer.len() == 0 {
            self.scan_oam(oam);
        }
        let ghost p = self@;
        let ghost row0 = row@;
        let ghost sprites = self.sprite_buffer@;
        let mut i: usize = self.sprite_buffer.len();
        assert(sprites.take(i as int) =~= sprites);
        while i > 0
            invariant
                i <= sprites.len(),
                sprites == self.sprite_buffer@,
                self@ == p,
                p.wf(),
                line == p.ly,
                line < 144,
                vram@.len() >= 0x2000,
                forall|k: int|
                    0 <= k < sprites.len() ==> p.sprite_draw_defined(#[trigger] sprites[k], line as int),
                p.draw_sprites(vram@, line as int, row@, sprites.take(i as int)) == p.draw_sprites(
                    vram@,
                    line as int,
                    row0,
                    sprites,
                ),
            decreases i,
        {
            let sprite = self.sprite_buffer[i - 1];
            assert(sprite_in_oam_range(sprites[i - 1]));
            assert(p.sprite_draw_defined(sprites[i - 1], line as int));
            let ghost before = row@;
            self.draw_sprite(line, vram, row, sprite);
            assert(sprites.take(i as int).drop_last() =~= sprites.take(i - 1));
            i = i - 1;
        }
        assert(sprites.take(0) =~= Seq::<SpriteData>::empty());
        assert(p.draw_sprites(vram@, line as int, row@, Seq::<SpriteData>::empty()) == row@);
        assert(row@ == p.draw_sprites(vram@, line as int, row0, sprites));
        assert(row0 == old(row)@);
        assert(sprites == old(self)@.sprites_for(oam@));
        proof {
            lemma_draw_sprites_registers(p, old(self)@, vram@, line as int, row0, sprites);
        }
    }

    /// Render the current line into the frame buffer.
    pub fn render_scanline(&mut self, vram: &[u8], oam: &[u8])
        requires
            old(self)@.wf(),
            vram@.len() >= 0x2000,
            oam@.len() >= 0xA0,
            old(self)@.render_defined(oam@),
        ensures
            final(self)@ == old(self)@.rendered(vram@, oam@),
            final(self)@.wf(),
    {
        if !self.is_lcd_enabled() || self.ly >= 144 {
            return;
        }
        let line = self.ly as usize;
        let ghost p = self@;
        let mut row = [0u8; 160];
        assert(row@ =~= Seq::new(160, |x: int| 0u8));
        if self.bg_window_enabled() {
            self.render_background(line, vram, &mut row);
        }
        if self.window_enabled() && self.bg_window_enabled() {
            self.render_window(line, vram, &mut row);
        }
        if self.sprites_enabled() {
            self.render_sprites(line, vram, oam, &mut row);
        }
        assert(row@ == p.line_shades(vram@, oam@));
        self.framebuffer[line] = row;
        assert(frame_rows(self.framebuffer) =~= p.rendered(vram@, oam@).framebuffer);
    }
}

/// Whether rendering is defined depends only on the sprite buffer, LY and
/// LCDC.
pub proof fn lemma_render_defined_same(p: PpuModel, q: PpuModel, oam: Seq<u8>)
    requires
        p.sprites == q.sprites,
        p.ly == q.ly,
        p.lcdc == q.lcdc,
    ensures
        p.render_defined(oam) == q.render_defined(oam),
{
    assert(p.sprites_for(oam) == q.sprites_for(oam));
    assert forall|s: SpriteData, line: int| p.sprite_draw_defined(s, line) == q.sprite_draw_defined(
        s,
        line,
    ) by {}
}

/// The sprites that the OAM scan selects on `line` for sprites of
/// `height` rows: up to ten, in OAM order.
fn scan_line(oam: &[u8], line: u8, height: u8) -> (v: Vec<SpriteData>)
    requires
        oam@.len() >= 0xA0,
        height == 8 || height == 16,
    ensures
        v@ == scanned_sprites(oam@, line as int, height as int),
        v@.len() <= 10,
        forall|k: int| 0 <= k < v@.len() ==> sprite_in_oam_range(#[trigger] v@[k]),
{
    let mut v: Vec<SpriteData> = Vec::new();
    let l = line as i16;
    let ghost h = height as int;
    let mut i: usize = 0;
    while i < 40
        invariant
            i <= 40,
            oam@.len() >= 0xA0,
            h == height,
            height == 8 || height == 16,
            l == line as i16,
            0 <= l < 256,
            v@ == sprites_on_line(oam@, l as int, h, i as nat),
            v@.len() < 10,
        decreases 40 - i,
    {
        let oam_addr = i * 4;
        let y = oam[oam_addr] as i16 - 16;
        let x = oam[oam_addr + 1] as i16 - 8;
        let tile_index = oam[oam_addr + 2];
        let attributes = oam[oam_addr + 3];
        let sprite = SpriteData { y, x, tile_index, attributes };
        assert(sprite == oam_sprite(oam@, i as int));
        if l >= y && l < y + height as i16 {
            v.push(sprite);
            if v.len() >= 10 {
                proof {
                    lemma_sprites_on_line_prefix(oam@, l as int, h, (i + 1) as nat, 40);
                    assert(v@ =~= scanned_sprites(oam@, l as int, h));
                    assert forall|k: int| 0 <= k < v@.len() implies sprite_in_oam_range(
                        #[trigger] v@[k],
                    ) by {
                        lemma_sprites_in_range(oam@, l as int, h, (i + 1) as nat, k);
                    }
                }
                return v;
            }
        }
        i = i + 1;
    }
    proof {
        assert forall|k: int| 0 <= k < v@.len() implies sprite_in_oam_range(#[trigger] v@[k]) by {
            lemma_sprites_in_range(oam@, l as int, h, 40, k);
        }
    }
    v
}

/// Drawing sprites depends only on LCDC and the object palettes.
proof fn lemma_draw_sprites_registers(
    p: PpuModel,
    q: PpuModel,
    vram: Seq<u8>,
    line: int,
    row: Seq<u8>,
    sprites: Seq<SpriteData>,
)
    requires
        p.lcdc == q.lcdc,
        p.obp0 == q.obp0,
        p.obp1 == q.obp1,
    ensures
        p.draw_sprites(vram, line, row, sprites) == q.draw_sprites(vram, line, row, sprites),
    decreases sprites.len(),
{
    if sprites.len() > 0 {
        lemma_draw_sprites_registers(
            p,
            q,
            vram,
            line,
            p.draw_sprite(vram, line, row, sprites.last()),
            sprites.drop_last(),
        );
    }
}

proof fn lemma_sprites_in_range(oam: Seq<u8>, line: int, height: int, n: nat, k: int)
    requires
        0 <= k < sprites_on_line(oam, line, height, n).len(),
        n <= 40,
        oam.len() >= 0xA0,
    ensures
        sprite_in_oam_range(sprites_on_line(oam, line, height, n)[k]),
    decreases n,
{
    if n > 0 {
        let s = sprites_on_line(oam, line, height, (n - 1) as nat);
        if k < s.len() {
            lemma_sprites_in_range(oam, line, height, (n - 1) as nat, k);
        }
    }
}

/// The sprites selected for a line cover it.
proof fn lemma_sprites_on_line_cover(oam: Seq<u8>, line: int, height: int, n: nat, k: int)
    requires
        0 <= k < sprites_on_line(oam, line, height, n).len(),
    ensures
        sprite_on_line(sprites_on_line(oam, line, height, n)[k], line, height),
    decreases n,
{
    if n > 0 {
        let s = sprites_on_line(oam, line, height, (n - 1) as nat);
        if k < s.len() {
            lemma_sprites_on_line_cover(oam, line, height, (n - 1) as nat, k);
        }
    }
}

/// Rendering a line with the sprites scanned for it at the current sprite
/// height is always defined: rendering can only fail when the sprite height
/// changed between the scan and the rendering of a line.
pub proof fn law_fresh_scan_renders(p: PpuModel, oam: Seq<u8>)
    requires
        p.ly < 144,
        oam.len() >= 0xA0,
    ensures
        (PpuModel {
            sprites: scanned_sprites(oam, p.ly as int, p.sprite_height() as int),
            ..p
        }).render_defined(oam),
{
    let h = p.sprite_height() as int;
    let line = p.ly as int;
    let q = PpuModel { sprites: scanned_sprites(oam, line, h), ..p };
    let all = sprites_on_line(oam, line, h, 40);
    lemma_sprites_on_line_prefix(oam, line, h, 40, 40);
    assert forall|i: int| 0 <= i < q.sprites_for(oam).len() implies q.sprite_draw_defined(
        #[trigger] q.sprites_for(oam)[i],
        line,
    ) by {
        assert(q.sprites_for(oam)[i] == all[i]);
        lemma_sprites_on_line_cover(oam, line, h, 40, i);
        lemma_sprites_in_range(oam, line, h, 40, i);
    }
}

impl Ppu {
    /// Whether an OAM scan was requested (at the start of a line).
    pub fn scan_requested(&self) -> (r: bool)
        ensures
            r == self@.should_scan_oam,
    {
        self.should_scan_oam
    }

    pub fn clear_scan_request(&mut self)
        ensures
            final(self)@ == (PpuModel { should_scan_oam: false, ..old(self)@ }),
    {
        self.should_scan_oam = false;
    }

    /// Whether rendering of the current line was requested (at the end of
    /// the pixel transfer).
    pub fn render_requested(&self) -> (r: bool)
        ensures
            r == self@.should_render_scanline,
    {
        self.should_render_scanline
    }

    pub fn clear_render_request(&mut self)
        ensures
            final(self)@ == (PpuModel { should_render_scanline: false, ..old(self)@ }),
    {
        self.should_render_scanline = false;
    }

    /// Whether the V-Blank interrupt was requested.
    pub fn vblank_requested(&self) -> (r: bool)
        ensures
            r == self@.vblank_interrupt,
    {
        self.vblank_interrupt
    }

    pub fn clear_vblank_request(&mut self)
        ensures
            final(self)@ == (PpuModel { vblank_interrupt: false, ..old(self)@ }),
    {
        self.vblank_interrupt = false;
    }

    /// Whether the STAT interrupt was requested.
    pub fn stat_requested(&self) -> (r: bool)
        ensures
            r == self@.stat_interrupt,
    {
        self.stat_interrupt
    }

    pub fn clear_stat_request(&mut self)
        ensures
            final(self)@ == (PpuModel { stat_interrupt: false, ..old(self)@ }),
    {
        self.stat_interrupt = false;
    }
}

impl Default for Ppu {
    fn default() -> (r: Self)
        ensures
            r@ == Self::new_model(),
            r@.wf(),
    {
        Self::new()
    }
}

} // verus!
