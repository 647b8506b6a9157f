//! The framebuffer terminal: a pixel buffer with a text cursor, a pair of
//! colors and an echo flag, driven by the actions of a VT parser.

use vstd::prelude::*;
use vstd::string::StringSliceAdditionalSpecFns;
use crate::vga::{from_ansi, from_index, Color, Palette};
use crate::vt::{advance, events_view, is_fresh, new_parser, vt_step, VtEvent, VtEventView};

verus! {

/// Blank pixel rows between two lines of text.
pub const LINE_SPACING: usize = 2;

/// Blank pixel columns between two glyphs.
pub const LETTER_SPACING: usize = 0;

/// Pixels kept free at the left and top edge.
pub const BORDER_PADDING: usize = 1;

/// Pixel rows of a glyph.
pub const CHAR_RASTER_HEIGHT: usize = 16;

/// Pixel columns of a glyph.
pub const CHAR_RASTER_WIDTH: usize = 7;

/// Drawn in place of a character that the font lacks.
pub const BACKUP_CHAR: char = '\u{FFFD}';

/// Foreground after a reset.
pub const FG: Color = Color::White;

/// Background after a reset.
pub const BG: Color = Color::Black;

/// How the bytes of one pixel are laid out.
#[derive(Clone, Copy, Debug, PartialEq, Eq, Structural)]
pub enum PixelFormat {
    Rgb,
    Bgr,
    U8,
}

/// Geometry of a linear framebuffer. Rows follow each other `stride` pixels
/// apart, and pixel `(x, y)` starts at byte `(y * stride + x) * bytes_per_pixel`.
#[derive(Clone, Copy, Debug, PartialEq, Eq, Structural)]
pub struct FrameBufferInfo {
    pub width: usize,
    pub height: usize,
    pub stride: usize,
    pub bytes_per_pixel: usize,
    pub pixel_format: PixelFormat,
}

impl FrameBufferInfo {
    /// The geometry describes a buffer of `len` bytes that has room for at
    /// least one character cell inside the border.
    pub open spec fn fits(self, len: nat) -> bool {
        &&& BORDER_PADDING + CHAR_RASTER_WIDTH < self.width <= self.stride
        &&& BORDER_PADDING + CHAR_RASTER_HEIGHT + BORDER_PADDING < self.height
        &&& 1 <= self.bytes_per_pixel <= 4
        &&& self.height * self.stride * self.bytes_per_pixel <= len
    }

    /// Decides `fits` for a buffer of `len` bytes.
    pub fn check_fits(&self, len: usize) -> (ok: bool)
        ensures
            ok == self.fits(len as nat),
    {
        if !(BORDER_PADDING + CHAR_RASTER_WIDTH < self.width && self.width <= self.stride) {
            return false;
        }
        if !(BORDER_PADDING + CHAR_RASTER_HEIGHT + BORDER_PADDING < self.height) {
            return false;
        }
        if !(1 <= self.bytes_per_pixel && self.bytes_per_pixel <= 4) {
            return false;
        }
        let bpp: usize = self.bytes_per_pixel;
        let per_pixel: usize = len / bpp;
        let rows: usize = per_pixel / self.stride;
        proof {
            lemma_area_fits(self.height as int, self.stride as int, bpp as int, len as int);
        }
        self.height <= rows
    }

    /// Pixel that byte `k` of the buffer belongs to, as a running number.
    pub open spec fn pixel_of(self, k: int) -> int {
        k / (self.bytes_per_pixel as int)
    }

    /// Column of the pixel that byte `k` belongs to.
    pub open spec fn column_of(self, k: int) -> int {
        self.pixel_of(k) % (self.stride as int)
    }

    /// Row of the pixel that byte `k` belongs to.
    pub open spec fn row_of(self, k: int) -> int {
        self.pixel_of(k) / (self.stride as int)
    }

    /// Position of byte `k` inside its pixel.
    pub open spec fn channel_of(self, k: int) -> int {
        k % (self.bytes_per_pixel as int)
    }
}

/// `h * s * b <= len` is decided by two divisions.
proof fn lemma_area_fits(h: int, s: int, b: int, len: int)
    requires
        0 <= h,
        0 < s,
        0 < b,
        0 <= len,
    ensures
        (h * s * b <= len) == (h <= (len / b) / s),
{
    let q = len / b;
    assert(len == b * q + len % b && 0 <= len % b < b) by {
        vstd::arithmetic::div_mod::lemma_fundamental_div_mod(len, b);
        vstd::arithmetic::div_mod::lemma_mod_bound(len, b);
    }
    let r = q / s;
    assert(0 <= q) by {
        vstd::arithmetic::div_mod::lemma_div_pos_is_pos(len, b);
    }
    assert(q == s * r + q % s && 0 <= q % s < s) by {
        vstd::arithmetic::div_mod::lemma_fundamental_div_mod(q, s);
        vstd::arithmetic::div_mod::lemma_mod_bound(q, s);
    }
    if h <= r {
        assert(h * s <= r * s) by (nonlinear_arith)
            requires
                h <= r,
                0 < s,
        ;
        assert(r * s <= q) by (nonlinear_arith)
            requires
                q == s * r + q % s,
                0 <= q % s,
        ;
        assert(h * s * b <= q * b) by (nonlinear_arith)
            requires
                h * s <= q,
                0 < b,
        ;
        assert(q * b <= len) by (nonlinear_arith)
            requires
                len == b * q + len % b,
                0 <= len % b,
        ;
    } else {
        assert(h * s >= (r + 1) * s) by (nonlinear_arith)
            requires
                h >= r + 1,
                0 < s,
        ;
        assert((r + 1) * s > q) by (nonlinear_arith)
            requires
                q == s * r + q % s,
                q % s < s,
        ;
        assert(h * s * b >= (q + 1) * b) by (nonlinear_arith)
            requires
                h * s >= q + 1,
                0 < b,
        ;
        assert((q + 1) * b > len) by (nonlinear_arith)
            requires
                len == b * q + len % b,
                len % b < b,
        ;
    }
}

/// A running pixel number splits into its row and column in one way only.
pub proof fn lemma_pixel_index(stride: int, x: int, y: int, p: int)
    requires
        0 <= x < stride,
        0 <= y,
    ensures
        (p == y * stride + x) <==> (p / stride == y && p % stride == x),
{
    if p == y * stride + x {
        vstd::arithmetic::div_mod::lemma_fundamental_div_mod_converse(p, stride, y, x);
    }
    if p / stride == y && p % stride == x {
        vstd::arithmetic::div_mod::lemma_fundamental_div_mod(p, stride);
        assert(stride * y == y * stride) by (nonlinear_arith);
    }
}

/// The bytes of pixel number `q` are those from `q * b` up to `q * b + b`.
pub proof fn lemma_byte_index(b: int, q: int, k: int)
    requires
        0 < b,
        0 <= q,
    ensures
        (k / b == q) <==> (q * b <= k < q * b + b),
        k / b == q ==> k % b == k - q * b,
{
    vstd::arithmetic::div_mod::lemma_fundamental_div_mod(k, b);
    vstd::arithmetic::div_mod::lemma_mod_bound(k, b);
    assert(b * (k / b) == (k / b) * b) by (nonlinear_arith);
    if q * b <= k < q * b + b {
        vstd::arithmetic::div_mod::lemma_fundamental_div_mod_converse(k, b, q, k - q * b);
    }
}


/// Foreground in the low four bits, background in the high four.
#[derive(Clone, Copy, Debug, PartialEq, Eq, Structural)]
pub struct ColorCode(pub u8);

impl ColorCode {
    pub open spec fn foreground(self) -> Color {
        Color::spec_from_index((self.0 % 16) as nat)
    }

    pub open spec fn background(self) -> Color {
        Color::spec_from_index((self.0 / 16) as nat)
    }

    pub fn new(foreground: Color, background: Color) -> (code: ColorCode)
        ensures
            code.foreground() == foreground,
            code.background() == background,
    {
        let f: u8 = foreground.index() as u8;
        let b: u8 = background.index() as u8;
        assert(((b << 4) | f) % 16 == f && ((b << 4) | f) / 16 == b) by (bit_vector)
            requires
                f < 16,
                b < 16,
        ;
        proof {
            crate::vga::lemma_color_round_trip(foreground);
            crate::vga::lemma_color_round_trip(background);
        }
        ColorCode((b << 4) | f)
    }
}

/// `BitField::get_bits` of the bit_field crate on a byte: the bits from
/// `start` up to, not including, `end`, moved down to bit 0.
#[verifier::external_body]
fn get_bits(value: u8, start: usize, end: usize) -> (bits: u8)
    requires
        start < end <= 8,
    ensures
        bits as int == (value as int / vstd::arithmetic::power2::pow2(start as nat) as int) % (
        vstd::arithmetic::power2::pow2((end - start) as nat) as int),
{
    bit_field::BitField::get_bits(&value, start..end)
}

/// What the font holds for a character: its rows of pixel intensities, top to
/// bottom, or nothing where the font lacks the character.
pub uninterp spec fn glyph_raster(c: char) -> Option<Seq<Seq<u8>>>;

/// `get_raster` of the noto_sans_mono_bitmap crate at regular weight and
/// height 16, with the rows copied out.
#[verifier::external_body]
fn get_raster(c: char) -> (raster: Option<Vec<Vec<u8>>>)
    ensures
        match raster {
            Some(rows) => glyph_raster(c) == Some(rows.deep_view()),
            None => glyph_raster(c) is None,
        },
{
    noto_sans_mono_bitmap::get_raster(
        c,
        noto_sans_mono_bitmap::FontWeight::Regular,
        noto_sans_mono_bitmap::RasterHeight::Size16,
    ).map(|r| r.raster().iter().map(|row| row.to_vec()).collect())
}

/// The raster drawn for a character: its own, else that of the backup
/// character, else an empty one.
pub open spec fn char_raster(c: char) -> Seq<Seq<u8>> {
    match glyph_raster(c) {
        Some(rows) => rows,
        None => match glyph_raster(BACKUP_CHAR) {
            Some(rows) => rows,
            None => Seq::empty(),
        },
    }
}

fn get_char_raster(c: char) -> (raster: Vec<Vec<u8>>)
    ensures
        raster.deep_view() == char_raster(c),
{
    match get_raster(c) {
        Some(rows) => rows,
        None => match get_raster(BACKUP_CHAR) {
            Some(rows) => rows,
            None => {
                let rows: Vec<Vec<u8>> = Vec::new();
                assert(rows.deep_view() =~= Seq::<Seq<u8>>::empty());
                rows
            },
        },
    }
}

/// One channel of a color at a glyph intensity.
pub open spec fn blend(channel: u8, intensity: u8) -> u8 {
    (channel as int * intensity as int / 255) as u8
}

/// The four bytes of a pixel drawn at `intensity`: the foreground scaled by
/// the intensity where that is above 10, the background otherwise, laid out
/// as the format asks. An eight-bit buffer gets a lit or a dark byte.
pub open spec fn pixel_bytes(
    fg: (u8, u8, u8),
    bg: (u8, u8, u8),
    intensity: u8,
    format: PixelFormat,
) -> Seq<u8> {
    let rgb = if intensity > 10 {
        (blend(fg.0, intensity), blend(fg.1, intensity), blend(fg.2, intensity))
    } else {
        bg
    };
    match format {
        PixelFormat::Rgb => seq![rgb.0, rgb.1, rgb.2, 0u8],
        PixelFormat::Bgr => seq![rgb.2, rgb.1, rgb.0, 0u8],
        PixelFormat::U8 => seq![if intensity > 200 { 0xfu8 } else { 0u8 }, 0u8, 0u8, 0u8],
    }
}

fn blend_channel(channel: u8, intensity: u8) -> (out: u8)
    ensures
        out == blend(channel, intensity),
{
    assert(channel as int * intensity as int <= 255 * 255) by (nonlinear_arith)
        requires
            channel <= 255,
            intensity <= 255,
    ;
    let product: u16 = (channel as u16) * (intensity as u16);
    (product / 255) as u8
}

fn pixel_color(fg: (u8, u8, u8), bg: (u8, u8, u8), intensity: u8, format: PixelFormat) -> (out: [
    u8;
    4
])
    ensures
        out@ =~= pixel_bytes(fg, bg, intensity, format),
{
    let rgb: (u8, u8, u8) = if intensity > 10 {
        (
            blend_channel(fg.0, intensity),
            blend_channel(fg.1, intensity),
            blend_channel(fg.2, intensity),
        )
    } else {
        bg
    };
    match format {
        PixelFormat::Rgb => [rgb.0, rgb.1, rgb.2, 0],
        PixelFormat::Bgr => [rgb.2, rgb.1, rgb.0, 0],
        PixelFormat::U8 => [if intensity > 200 { 0xf } else { 0 }, 0, 0, 0],
    }
}

/// A raster of the height of a glyph and `width` columns, all intensity zero.
pub open spec fn blank_raster(width: int) -> Seq<Seq<u8>> {
    Seq::new(CHAR_RASTER_HEIGHT as nat, |r: int| Seq::new(width as nat, |c: int| 0u8))
}

/// The terminal as contracts see it: the pixel bytes, the geometry, the
/// cursor in pixels, the colors, the echo flag, and the parser with what it
/// holds of a sequence that has not ended yet.
pub struct Screen {
    pub fb: Seq<u8>,
    pub info: FrameBufferInfo,
    pub x: int,
    pub y: int,
    pub fg: Color,
    pub bg: Color,
    pub palette: Palette,
    pub echo: bool,
    pub parser: vte::Parser,
}

impl Screen {
    /// The buffer matches the geometry and the cursor lies on the screen.
    pub open spec fn wf(self) -> bool {
        &&& self.info.fits(self.fb.len())
        &&& 0 <= self.x < self.info.width
        &&& 0 <= self.y < self.info.height
    }

    /// Every byte zero, the cursor in the top left corner inside the border.
    pub open spec fn clear(self) -> Screen {
        Screen {
            fb: Seq::new(self.fb.len(), |k: int| 0u8),
            x: BORDER_PADDING as int,
            y: BORDER_PADDING as int,
            ..self
        }
    }

    pub open spec fn carriage_return(self) -> Screen {
        Screen { x: BORDER_PADDING as int, ..self }
    }

    /// Down one text line and back to the left edge; where no further line
    /// starts on the screen, the screen is cleared instead.
    pub open spec fn newline(self) -> Screen {
        if self.y + CHAR_RASTER_HEIGHT + LINE_SPACING < self.info.height {
            Screen {
                x: BORDER_PADDING as int,
                y: self.y + CHAR_RASTER_HEIGHT + LINE_SPACING,
                ..self
            }
        } else {
            self.clear()
        }
    }

    /// The buffer after pixel `(x, y)` was drawn at `intensity`.
    pub open spec fn put_pixel(self, x: int, y: int, intensity: u8) -> Seq<u8> {
        Seq::new(
            self.fb.len(),
            |k: int|
                if self.info.pixel_of(k) == y * self.info.stride + x {
                    self.pixel_byte(intensity, k)
                } else {
                    self.fb[k]
                },
        )
    }

    /// Byte `k` of its pixel, were that drawn at `intensity` in the current
    /// colors.
    pub open spec fn pixel_byte(self, intensity: u8, k: int) -> u8 {
        pixel_bytes(
            self.palette.rgb(self.fg),
            self.palette.rgb(self.bg),
            intensity,
            self.info.pixel_format,
        )[self.info.channel_of(k)]
    }

    /// Whether the pixel of byte `k` is on the screen and under a raster
    /// whose top left corner is at the cursor.
    pub open spec fn under_glyph(self, raster: Seq<Seq<u8>>, k: int) -> bool {
        let row = self.info.row_of(k) - self.y;
        let column = self.info.column_of(k) - self.x;
        &&& self.info.row_of(k) < self.info.height
        &&& self.info.column_of(k) < self.info.width
        &&& 0 <= row < raster.len()
        &&& 0 <= column < raster[row].len()
    }

    /// The intensity that a raster at the cursor holds for the pixel of
    /// byte `k`.
    pub open spec fn glyph_intensity(self, raster: Seq<Seq<u8>>, k: int) -> u8 {
        raster[self.info.row_of(k) - self.y][self.info.column_of(k) - self.x]
    }

    /// The buffer while a raster is being drawn, row by row: the pixels of
    /// the rows before `row`, and those of `row` before `column`, are done.
    pub open spec fn painted_until(self, raster: Seq<Seq<u8>>, row: int, column: int) -> Seq<u8> {
        Seq::new(
            self.fb.len(),
            |k: int|
                if self.under_glyph(raster, k) && (self.info.row_of(k) - self.y < row || (
                self.info.row_of(k) - self.y == row && self.info.column_of(k) - self.x
                    < column)) {
                    self.pixel_byte(self.glyph_intensity(raster, k), k)
                } else {
                    self.fb[k]
                },
        )
    }

    /// The screen after a raster was drawn with its top left corner at the
    /// cursor: each pixel on the screen and under the raster holds the
    /// raster's intensity in the current colors; every other byte is as
    /// before.
    pub open spec fn paint(self, raster: Seq<Seq<u8>>) -> Screen {
        Screen {
            fb: Seq::new(
                self.fb.len(),
                |k: int|
                    if self.under_glyph(raster, k) {
                        self.pixel_byte(self.glyph_intensity(raster, k), k)
                    } else {
                        self.fb[k]
                    },
            ),
            ..self
        }
    }

    /// A raster drawn at the cursor, and the cursor one glyph further right.
    pub open spec fn draw_glyph(self, raster: Seq<Seq<u8>>) -> Screen {
        Screen { x: self.x + CHAR_RASTER_WIDTH + LETTER_SPACING, ..self.paint(raster) }
    }

    /// The cursor one glyph back, not past the border, and the cell there
    /// drawn blank.
    pub open spec fn backspace(self) -> Screen {
        let x = if self.x >= BORDER_PADDING + CHAR_RASTER_WIDTH {
            self.x - CHAR_RASTER_WIDTH
        } else {
            BORDER_PADDING as int
        };
        (Screen { x, ..self }).paint(char_raster(' '))
    }

    /// The text line of the cursor painted in the background color from
    /// pixel column `from` to the right edge; the cursor stays.
    pub open spec fn erase_line(self, from: int) -> Screen {
        Screen {
            x: self.x,
            ..(Screen { x: from, ..self }).paint(blank_raster(self.info.width - from))
        }
    }

    /// Room for a glyph is made first: a new line where the glyph would pass
    /// the right edge, a cleared screen where it would pass the bottom.
    pub open spec fn make_room(self) -> Screen {
        let moved = if self.x + CHAR_RASTER_WIDTH >= self.info.width {
            self.newline()
        } else {
            self
        };
        if moved.y + CHAR_RASTER_HEIGHT + BORDER_PADDING >= moved.info.height {
            moved.clear()
        } else {
            moved
        }
    }

    /// A line feed and a carriage return move the cursor; any other
    /// character is drawn at the cursor once there is room for it.
    pub open spec fn write_char(self, c: char) -> Screen {
        if c == '\n' {
            self.newline()
        } else if c == '\r' {
            self.carriage_return()
        } else {
            self.make_room().draw_glyph(char_raster(c))
        }
    }
}


/// Writes text into a framebuffer, one glyph after the other.
pub struct FrameBufferWriter {
    framebuffer: Vec<u8>,
    info: FrameBufferInfo,
    x_pos: usize,
    y_pos: usize,
    color_code: ColorCode,
    palette: Palette,
    echo: bool,
    parser: vte::Parser,
}

impl View for FrameBufferWriter {
    type V = Screen;

    closed spec fn view(&self) -> Screen {
        Screen {
            fb: self.framebuffer@,
            info: self.info,
            x: self.x_pos as int,
            y: self.y_pos as int,
            fg: self.color_code.foreground(),
            bg: self.color_code.background(),
            palette: self.palette,
            echo: self.echo,
            parser: self.parser,
        }
    }
}

/// The rows of a raster, seen as sequences, are the rows themselves.
proof fn lemma_raster_rows(raster: &Vec<Vec<u8>>)
    ensures
        raster.deep_view().len() == raster@.len(),
        forall|i: int| 0 <= i < raster@.len() ==> #[trigger] raster.deep_view()[i] == raster@[i]@,
{
    assert forall|i: int| 0 <= i < raster@.len() implies #[trigger] raster.deep_view()[i]
        == raster@[i]@ by {
        assert(raster@[i].deep_view() =~= raster@[i]@);
    }
}

impl FrameBufferWriter {
    /// The buffer matches the geometry and the cursor lies on the screen.
    pub open spec fn wf(&self) -> bool {
        self@.wf()
    }

    /// A cleared terminal over `framebuffer`, white on black, with the
    /// standard palette and echo switched on.
    pub fn new(framebuffer: Vec<u8>, info: FrameBufferInfo) -> (writer: Self)
        requires
            info.fits(framebuffer@.len()),
        ensures
            writer.wf(),
            writer@ == (Screen {
                fb: framebuffer@,
                info,
                x: 0,
                y: 0,
                fg: FG,
                bg: BG,
                palette: writer@.palette,
                echo: true,
                parser: writer@.parser,
            }).clear(),
            writer@.palette.colors@ == Palette::spec_default(),
            is_fresh(writer@.parser),
    {
        let mut writer = Self {
            framebuffer,
            info,
            x_pos: 0,
            y_pos: 0,
            color_code: ColorCode::new(FG, BG),
            palette: Palette::default(),
            echo: true,
            parser: new_parser(),
        };
        writer.clear();
        writer
    }

    pub fn position(&self) -> (at: (usize, usize))
        ensures
            at.0 == self@.x,
            at.1 == self@.y,
    {
        (self.x_pos, self.y_pos)
    }

    /// Moves the cursor to pixel `(x, y)`, if that lies on the screen.
    pub fn set_position(&mut self, x: usize, y: usize)
        requires
            old(self).wf(),
        ensures
            final(self).wf(),
            final(self)@ == if x < old(self)@.info.width && y < old(self)@.info.height {
                Screen { x: x as int, y: y as int, ..old(self)@ }
            } else {
                old(self)@
            },
    {
        if x < self.info.width && y < self.info.height {
            self.x_pos = x;
            self.y_pos = y;
        }
    }

    /// Text column of the cursor, counted in glyph widths from the border.
    pub fn column(&self) -> (column: usize)
        ensures
            column == (if self@.x >= BORDER_PADDING {
                (self@.x - BORDER_PADDING) / (CHAR_RASTER_WIDTH + LETTER_SPACING) as int
            } else {
                0
            }),
    {
        if self.x_pos >= BORDER_PADDING {
            (self.x_pos - BORDER_PADDING) / (CHAR_RASTER_WIDTH + LETTER_SPACING)
        } else {
            0
        }
    }

    /// Text row of the cursor, counted in line heights from the border.
    pub fn row(&self) -> (row: usize)
        ensures
            row == (if self@.y >= BORDER_PADDING {
                (self@.y - BORDER_PADDING) / (CHAR_RASTER_HEIGHT + LINE_SPACING) as int
            } else {
                0
            }),
    {
        if self.y_pos >= BORDER_PADDING {
            (self.y_pos - BORDER_PADDING) / (CHAR_RASTER_HEIGHT + LINE_SPACING)
        } else {
            0
        }
    }

    /// The pixel bytes.
    pub fn buffer(&self) -> (bytes: &Vec<u8>)
        ensures
            bytes@ == self@.fb,
    {
        &self.framebuffer
    }

    pub fn info(&self) -> (info: FrameBufferInfo)
        ensures
            info == self@.info,
    {
        self.info
    }

    pub fn echo(&self) -> (echo: bool)
        ensures
            echo == self@.echo,
    {
        self.echo
    }

    fn newline(&mut self)
        requires
            old(self).wf(),
        ensures
            final(self).wf(),
            final(self)@ == old(self)@.newline(),
    {
        if self.y_pos < self.info.height - (CHAR_RASTER_HEIGHT + LINE_SPACING) {
            self.y_pos = self.y_pos + (CHAR_RASTER_HEIGHT + LINE_SPACING);
            self.carriage_return();
        } else {
            self.clear();
        }
    }

    fn carriage_return(&mut self)
        requires
            old(self).wf(),
        ensures
            final(self).wf(),
            final(self)@ == old(self)@.carriage_return(),
    {
        self.x_pos = BORDER_PADDING;
    }

    /// Blanks the screen and puts the cursor into the top left corner.
    pub fn clear(&mut self)
        requires
            old(self)@.info.fits(old(self)@.fb.len()),
        ensures
            final(self).wf(),
            final(self)@ == old(self)@.clear(),
    {
        self.x_pos = BORDER_PADDING;
        self.y_pos = BORDER_PADDING;
        let n: usize = self.framebuffer.len();
        let mut k: usize = 0;
        while k < n
            invariant
                k <= n,
                n == self.framebuffer@.len(),
                n == old(self).framebuffer@.len(),
                forall|j: int| 0 <= j < k ==> self.framebuffer@[j] == 0u8,
                self.info == old(self).info,
                self.x_pos == BORDER_PADDING,
                self.y_pos == BORDER_PADDING,
                self.color_code == old(self).color_code,
                self.palette == old(self).palette,
                self.echo == old(self).echo,
                self.parser == old(self).parser,
            decreases n - k,
        {
            self.framebuffer[k] = 0;
            k = k + 1;
        }
        assert(self.framebuffer@ =~= old(self)@.clear().fb);
    }

    fn width(&self) -> (width: usize)
        ensures
            width == self@.info.width,
    {
        self.info.width
    }

    fn height(&self) -> (height: usize)
        ensures
            height == self@.info.height,
    {
        self.info.height
    }

    /// Stops typed characters from being shown.
    pub fn disable_echo(&mut self)
        ensures
            final(self)@ == (Screen { echo: false, ..old(self)@ }),
    {
        self.echo = false;
    }

    /// Lets typed characters be shown again.
    pub fn enable_echo(&mut self)
        ensures
            final(self)@ == (Screen { echo: true, ..old(self)@ }),
    {
        self.echo = true;
    }

    pub fn set_color(&mut self, foreground: Color, background: Color)
        ensures
            final(self)@ == (Screen { fg: foreground, bg: background, ..old(self)@ }),
    {
        self.color_code = ColorCode::new(foreground, background);
    }

    /// Foreground and background.
    pub fn color(&self) -> (colors: (Color, Color))
        ensures
            colors.0 == self@.fg,
            colors.1 == self@.bg,
    {
        let cc: u8 = self.color_code.0;
        proof {
            vstd::arithmetic::power2::lemma2_to64();
            assert((cc as int / 16) % 16 == cc as int / 16);
        }
        let fg = from_index(get_bits(cc, 0, 4) as usize);
        let bg = from_index(get_bits(cc, 4, 8) as usize);
        (fg, bg)
    }

    pub fn set_palette(&mut self, palette: Palette)
        ensures
            final(self)@ == (Screen { palette, ..old(self)@ }),
    {
        self.palette = palette;
    }

    fn write_pixel(&mut self, x: usize, y: usize, intensity: u8)
        requires
            old(self).wf(),
            x < old(self)@.info.width,
            y < old(self)@.info.height,
        ensures
            final(self)@ == (Screen {
                fb: old(self)@.put_pixel(x as int, y as int, intensity),
                ..old(self)@
            }),
    {
        let bpp: usize = self.info.bytes_per_pixel;
        let stride: usize = self.info.stride;
        let n: usize = self.framebuffer.len();
        let ghost len = n as int;
        let ghost q = y as int * stride as int + x as int;
        assert(0 <= q && q * bpp + bpp <= len) by (nonlinear_arith)
            requires
                q == y as int * stride as int + x as int,
                0 <= x < stride,
                0 <= y < self.info.height,
                0 < bpp,
                self.info.height * stride * bpp <= len,
        ;
        assert(q <= q * bpp) by (nonlinear_arith)
            requires
                0 <= q,
                1 <= bpp,
        ;
        let pixel_offset: usize = y * stride + x;
        let byte_offset: usize = pixel_offset * bpp;
        let colors = self.color();
        let bytes = pixel_color(
            self.palette.get(colors.0),
            self.palette.get(colors.1),
            intensity,
            self.info.pixel_format,
        );
        let mut c: usize = 0;
        while c < bpp
            invariant
                c <= bpp <= 4,
                byte_offset + bpp <= len,
                len == n,
                len == self.framebuffer@.len(),
                len == old(self).framebuffer@.len(),
                forall|k: int|
                    0 <= k < len ==> self.framebuffer@[k] == (if byte_offset <= k < byte_offset
                        + c {
                        bytes@[k - byte_offset]
                    } else {
                        old(self).framebuffer@[k]
                    }),
                self.info == old(self).info,
                self.x_pos == old(self).x_pos,
                self.y_pos == old(self).y_pos,
                self.color_code == old(self).color_code,
                self.palette == old(self).palette,
                self.echo == old(self).echo,
                self.parser == old(self).parser,
            decreases bpp - c,
        {
            self.framebuffer[byte_offset + c] = bytes[c];
            c = c + 1;
        }
        assert(self.framebuffer@ =~= old(self)@.put_pixel(x as int, y as int, intensity)) by {
            assert forall|k: int| 0 <= k < len implies self.framebuffer@[k] == old(
                self,
            )@.put_pixel(x as int, y as int, intensity)[k] by {
                lemma_byte_index(bpp as int, q, k);
            }
        }
    }
}


/// Printable ASCII, backspace, line feed, carriage return, and the upper half
/// of the byte range.
pub open spec fn spec_is_printable(c: u8) -> bool {
    ||| 0x20 <= c <= 0x7E
    ||| c == 0x08
    ||| c == 0x0A
    ||| c == 0x0D
    ||| 0x7F <= c
}

pub fn is_printable(c: u8) -> (printable: bool)
    ensures
        printable == spec_is_printable(c),
{
    (0x20 <= c && c <= 0x7E) || c == 0x08 || c == 0x0A || c == 0x0D || 0x7F <= c
}

impl Screen {
    /// A control byte does its work; any other byte is drawn as its
    /// character where it is printable, as the backup character where not.
    pub open spec fn write_byte(self, byte: u8) -> Screen {
        if byte == 0x0A {
            self.newline()
        } else if byte == 0x0D {
            self.carriage_return()
        } else if byte == 0x08 {
            self.backspace()
        } else if spec_is_printable(byte) {
            self.write_char(byte as char)
        } else {
            self.write_char(BACKUP_CHAR)
        }
    }
}

impl FrameBufferWriter {
    /// Draws a raster with its top left corner at the cursor, clipped at the
    /// screen's edges. The cursor stays.
    fn paint(&mut self, raster: &Vec<Vec<u8>>)
        requires
            old(self).wf(),
        ensures
            final(self).wf(),
            final(self)@ == old(self)@.paint(raster.deep_view()),
    {
        let ghost start = self@;
        let ghost rows = raster.deep_view();
        proof {
            lemma_raster_rows(raster);
        }
        let mut gy: usize = 0;
        assert(self@.fb =~= start.painted_until(rows, 0, 0));
        while gy < raster.len()
            invariant
                gy <= raster.len(),
                start.wf(),
                start == old(self)@,
                rows == raster.deep_view(),
                rows.len() == raster@.len(),
                forall|i: int| 0 <= i < raster@.len() ==> #[trigger] rows[i] == raster@[i]@,
                self@ == (Screen { fb: start.painted_until(rows, gy as int, 0), ..start }),
            decreases raster.len() - gy,
        {
            let row = &raster[gy];
            let mut gx: usize = 0;
            while gx < row.len()
                invariant
                    gy < raster.len(),
                    gx <= row.len(),
                    row == &raster@[gy as int],
                    start.wf(),
                    rows.len() == raster@.len(),
                    forall|i: int| 0 <= i < raster@.len() ==> #[trigger] rows[i] == raster@[i]@,
                    self@ == (Screen {
                        fb: start.painted_until(rows, gy as int, gx as int),
                        ..start
                    }),
                decreases row.len() - gx,
            {
                let ghost before = self@;
                if gx < self.info.width - self.x_pos && gy < self.info.height - self.y_pos {
                    let x: usize = self.x_pos + gx;
                    let y: usize = self.y_pos + gy;
                    self.write_pixel(x, y, row[gx]);
                    assert(self@.fb =~= start.painted_until(rows, gy as int, gx + 1)) by {
                        assert forall|k: int| 0 <= k < start.fb.len() implies self@.fb[k]
                            == start.painted_until(rows, gy as int, gx + 1)[k] by {
                            lemma_pixel_index(
                                start.info.stride as int,
                                x as int,
                                y as int,
                                start.info.pixel_of(k),
                            );
                            assert(rows[gy as int] == raster@[gy as int]@);
                        }
                    }
                } else {
                    assert(self@.fb =~= start.painted_until(rows, gy as int, gx + 1));
                }
                gx = gx + 1;
            }
            assert(rows[gy as int] == raster@[gy as int]@);
            assert(self@.fb =~= start.painted_until(rows, gy + 1, 0));
            gy = gy + 1;
        }
        assert(self@.fb =~= start.paint(rows).fb);
    }

    fn write_rendered_char(&mut self, raster: &Vec<Vec<u8>>)
        requires
            old(self).wf(),
            old(self)@.x + CHAR_RASTER_WIDTH + LETTER_SPACING < old(self)@.info.width,
        ensures
            final(self).wf(),
            final(self)@ == old(self)@.draw_glyph(raster.deep_view()),
    {
        self.paint(raster);
        self.x_pos = self.x_pos + (CHAR_RASTER_WIDTH + LETTER_SPACING);
    }

    /// Draws one character at the cursor, or moves the cursor for a line
    /// feed or a carriage return.
    pub fn write_char(&mut self, c: char)
        requires
            old(self).wf(),
        ensures
            final(self).wf(),
            final(self)@ == old(self)@.write_char(c),
    {
        if c == '\n' {
            self.newline();
        } else if c == '\r' {
            self.carriage_return();
        } else {
            if self.x_pos >= self.width() - CHAR_RASTER_WIDTH {
                self.newline();
            }
            if self.y_pos >= self.height() - (CHAR_RASTER_HEIGHT + BORDER_PADDING) {
                self.clear();
            }
            let raster = get_char_raster(c);
            self.write_rendered_char(&raster);
        }
    }

    fn backspace(&mut self)
        requires
            old(self).wf(),
        ensures
            final(self).wf(),
            final(self)@ == old(self)@.backspace(),
    {
        if self.x_pos >= BORDER_PADDING + CHAR_RASTER_WIDTH {
            self.x_pos = self.x_pos - CHAR_RASTER_WIDTH;
        } else {
            self.x_pos = BORDER_PADDING;
        }
        let raster = get_char_raster(' ');
        self.paint(&raster);
    }

    /// Handles one byte outside of an escape sequence.
    pub fn write_byte(&mut self, byte: u8)
        requires
            old(self).wf(),
        ensures
            final(self).wf(),
            final(self)@ == old(self)@.write_byte(byte),
    {
        if byte == 0x0A {
            self.newline();
        } else if byte == 0x0D {
            self.carriage_return();
        } else if byte == 0x08 {
            self.backspace();
        } else if is_printable(byte) {
            self.write_char(byte as char);
        } else {
            self.write_char(BACKUP_CHAR);
        }
    }

    fn erase_line(&mut self, from: usize)
        requires
            old(self).wf(),
            from <= old(self)@.info.width,
        ensures
            final(self).wf(),
            final(self)@ == old(self)@.erase_line(from as int),
    {
        let columns: usize = self.info.width - from;
        let mut raster: Vec<Vec<u8>> = Vec::new();
        let mut r: usize = 0;
        while r < CHAR_RASTER_HEIGHT
            invariant
                r <= CHAR_RASTER_HEIGHT,
                raster@.len() == r,
                forall|i: int|
                    0 <= i < r ==> #[trigger] raster@[i]@ == Seq::new(
                        columns as nat,
                        |c: int| 0u8,
                    ),
            decreases CHAR_RASTER_HEIGHT - r,
        {
            let mut row: Vec<u8> = Vec::new();
            let mut c: usize = 0;
            while c < columns
                invariant
                    c <= columns,
                    row@.len() == c,
                    forall|j: int| 0 <= j < c ==> row@[j] == 0u8,
                decreases columns - c,
            {
                row.push(0);
                c = c + 1;
            }
            assert(row@ =~= Seq::new(columns as nat, |c: int| 0u8));
            raster.push(row);
            r = r + 1;
        }
        proof {
            lemma_raster_rows(&raster);
            assert(raster.deep_view() =~= blank_raster(columns as int));
        }
        let x: usize = self.x_pos;
        if from < self.info.width {
            self.x_pos = from;
            self.paint(&raster);
            self.x_pos = x;
        } else {
            let ghost shifted = Screen { x: from as int, ..self@ };
            assert(shifted.paint(blank_raster(0)).fb =~= self@.fb);
        }
    }
}


/// The value of the last parameter, or `default` where there is none.
pub open spec fn last_param(params: Seq<u16>, default: int) -> int {
    if params.len() == 0 {
        default
    } else {
        params.last() as int
    }
}

/// How far a cursor movement goes: the last parameter, and one step where
/// that is absent or zero.
pub open spec fn count_param(params: Seq<u16>) -> int {
    if last_param(params, 1) == 0 {
        1
    } else {
        last_param(params, 1)
    }
}

/// The parameter at `index`, or one where the sequence is shorter.
pub open spec fn param_at(params: Seq<u16>, index: int) -> int {
    if index < params.len() {
        params[index] as int
    } else {
        1
    }
}

/// Whether an SGR parameter selects a foreground color.
pub open spec fn is_foreground(p: u16) -> bool {
    30 <= p <= 37 || 90 <= p <= 97
}

/// Whether an SGR parameter selects a background color.
pub open spec fn is_background(p: u16) -> bool {
    40 <= p <= 47 || 100 <= p <= 107
}

/// The colors that an SGR sequence selects. It starts from the default pair;
/// each parameter in turn resets the pair, or sets one of the two colors, or
/// is passed over.
pub open spec fn sgr_colors(params: Seq<u16>) -> (Color, Color)
    decreases params.len(),
{
    if params.len() == 0 {
        (FG, BG)
    } else {
        let before = sgr_colors(params.drop_last());
        let p = params.last();
        if p == 0 {
            (FG, BG)
        } else if is_foreground(p) {
            (Color::spec_from_ansi(p as u8), before.1)
        } else if is_background(p) {
            (before.0, Color::spec_from_ansi((p - 10) as u8))
        } else {
            before
        }
    }
}

pub open spec fn max(a: int, b: int) -> int {
    if a >= b {
        a
    } else {
        b
    }
}

pub open spec fn min(a: int, b: int) -> int {
    if a <= b {
        a
    } else {
        b
    }
}

impl Screen {
    /// What a control sequence with the given parameters and final character
    /// does to the screen.
    pub open spec fn csi(self, params: Seq<u16>, action: char) -> Screen {
        if action == 'm' {
            Screen { fg: sgr_colors(params).0, bg: sgr_colors(params).1, ..self }
        } else if action == 'A' {
            Screen { y: max(self.y - count_param(params), 0), ..self }
        } else if action == 'B' {
            Screen { y: min(self.y + count_param(params), self.info.height - 1), ..self }
        } else if action == 'C' {
            Screen { x: min(self.x + count_param(params), self.info.width - 1), ..self }
        } else if action == 'D' {
            Screen { x: max(self.x - count_param(params), 0), ..self }
        } else if action == 'G' {
            let column = last_param(params, 1);
            if column > self.info.width {
                self
            } else {
                Screen { x: max(column - 1, 0), ..self }
            }
        } else if action == 'H' {
            let row = param_at(params, 0);
            let column = param_at(params, 1);
            if column > self.info.width || row > self.info.height {
                self
            } else {
                Screen { x: max(column - 1, 0), y: max(row - 1, 0), ..self }
            }
        } else if action == 'J' {
            if last_param(params, 0) == 2 {
                Screen { x: 0, y: 0, ..self.clear() }
            } else {
                self
            }
        } else if action == 'K' {
            if last_param(params, 0) == 0 {
                self.erase_line(self.x)
            } else if last_param(params, 0) == 2 {
                self.erase_line(0)
            } else {
                self
            }
        } else if action == 'h' {
            if params.len() > 0 && params[0] == 12 {
                Screen { echo: true, ..self }
            } else {
                self
            }
        } else if action == 'l' {
            if params.len() > 0 && params[0] == 12 {
                Screen { echo: false, ..self }
            } else {
                self
            }
        } else {
            self
        }
    }

    /// What one action of the parser does to the screen.
    pub open spec fn apply(self, event: VtEventView) -> Screen {
        match event {
            VtEventView::Print(c) => self.write_char(c),
            VtEventView::Execute(byte) => self.write_byte(byte),
            VtEventView::Csi { params, action } => self.csi(params, action),
        }
    }

    /// What a run of actions does to the screen, first to last.
    pub open spec fn apply_all(self, events: Seq<VtEventView>) -> Screen
        decreases events.len(),
    {
        if events.len() == 0 {
            self
        } else {
            self.apply_all(events.drop_last()).apply(events.last())
        }
    }

    /// The screen after `bytes` went through its parser: the parser has
    /// moved on to `next`, and what it reported for the bytes is carried
    /// out.
    pub open spec fn fed(self, next: vte::Parser, bytes: Seq<u8>) -> Screen {
        (Screen { parser: next, ..self }).apply_all(vt_step(self.parser, bytes))
    }
}

fn last_param_or(params: &[u16], default: u16) -> (value: u16)
    ensures
        value == last_param(params@, default as int),
{
    if params.len() == 0 {
        default
    } else {
        params[params.len() - 1]
    }
}

fn count_of(params: &[u16]) -> (count: usize)
    ensures
        count == count_param(params@),
{
    let n: u16 = last_param_or(params, 1);
    if n == 0 {
        1
    } else {
        n as usize
    }
}

fn param_or_one(params: &[u16], index: usize) -> (value: usize)
    ensures
        value == param_at(params@, index as int),
{
    if index < params.len() {
        params[index] as usize
    } else {
        1
    }
}

fn select_colors(params: &[u16]) -> (colors: (Color, Color))
    ensures
        colors == sgr_colors(params@),
{
    let mut fg = FG;
    let mut bg = BG;
    let mut i: usize = 0;
    assert(params@.take(0) =~= Seq::<u16>::empty());
    while i < params.len()
        invariant
            i <= params.len(),
            (fg, bg) == sgr_colors(params@.take(i as int)),
        decreases params.len() - i,
    {
        let p: u16 = params[i];
        assert(params@.take(i + 1).drop_last() =~= params@.take(i as int));
        if p == 0 {
            fg = FG;
            bg = BG;
        } else if (30 <= p && p <= 37) || (90 <= p && p <= 97) {
            fg = from_ansi(p as u8);
        } else if (40 <= p && p <= 47) || (100 <= p && p <= 107) {
            bg = from_ansi((p as u8) - 10);
        }
        i = i + 1;
    }
    assert(params@.take(params.len() as int) =~= params@);
    (fg, bg)
}

impl FrameBufferWriter {
    /// Shows a character that the parser reports.
    pub fn print(&mut self, c: char)
        requires
            old(self).wf(),
        ensures
            final(self).wf(),
            final(self)@ == old(self)@.write_char(c),
    {
        self.write_char(c);
    }

    /// Handles a control byte that the parser reports.
    pub fn execute(&mut self, byte: u8)
        requires
            old(self).wf(),
        ensures
            final(self).wf(),
            final(self)@ == old(self)@.write_byte(byte),
    {
        self.write_byte(byte);
    }

    /// Carries out a control sequence: `m` selects colors, `A` `B` `C` `D`
    /// move the cursor and stop at the edges, `G` and `H` place it, `J`
    /// clears the screen, `K` erases in the line, `h` and `l` switch echo.
    pub fn csi_dispatch(&mut self, params: &[u16], action: char)
        requires
            old(self).wf(),
        ensures
            final(self).wf(),
            final(self)@ == old(self)@.csi(params@, action),
    {
        if action == 'm' {
            let colors = select_colors(params);
            self.set_color(colors.0, colors.1);
        } else if action == 'A' {
            let n: usize = count_of(params);
            self.y_pos = if n > self.y_pos {
                0
            } else {
                self.y_pos - n
            };
        } else if action == 'B' {
            let n: usize = count_of(params);
            self.y_pos = if n >= self.info.height - self.y_pos {
                self.info.height - 1
            } else {
                self.y_pos + n
            };
        } else if action == 'C' {
            let n: usize = count_of(params);
            self.x_pos = if n >= self.info.width - self.x_pos {
                self.info.width - 1
            } else {
                self.x_pos + n
            };
        } else if action == 'D' {
            let n: usize = count_of(params);
            self.x_pos = if n > self.x_pos {
                0
            } else {
                self.x_pos - n
            };
        } else if action == 'G' {
            let column: usize = last_param_or(params, 1) as usize;
            if column <= self.info.width {
                self.x_pos = if column == 0 {
                    0
                } else {
                    column - 1
                };
            }
        } else if action == 'H' {
            let row: usize = param_or_one(params, 0);
            let column: usize = param_or_one(params, 1);
            if column <= self.info.width && row <= self.info.height {
                self.x_pos = if column == 0 {
                    0
                } else {
                    column - 1
                };
                self.y_pos = if row == 0 {
                    0
                } else {
                    row - 1
                };
            }
        } else if action == 'J' {
            if last_param_or(params, 0) == 2 {
                self.clear();
                self.x_pos = 0;
                self.y_pos = 0;
            }
        } else if action == 'K' {
            let n: u16 = last_param_or(params, 0);
            if n == 0 {
                self.erase_line(self.x_pos);
            } else if n == 2 {
                self.erase_line(0);
            }
        } else if action == 'h' {
            if params.len() > 0 && params[0] == 12 {
                self.enable_echo();
            }
        } else if action == 'l' {
            if params.len() > 0 && params[0] == 12 {
                self.disable_echo();
            }
        }
    }

    /// Carries out one action of the parser.
    pub fn apply(&mut self, event: &VtEvent)
        requires
            old(self).wf(),
        ensures
            final(self).wf(),
            final(self)@ == old(self)@.apply(event@),
    {
        match event {
            VtEvent::Print(c) => self.print(*c),
            VtEvent::Execute(byte) => self.execute(*byte),
            VtEvent::Csi { params, action } => self.csi_dispatch(params.as_slice(), *action),
        }
    }

    /// Carries out a run of actions, first to last.
    pub fn apply_events(&mut self, events: &Vec<VtEvent>)
        requires
            old(self).wf(),
        ensures
            final(self).wf(),
            final(self)@ == old(self)@.apply_all(events_view(events@)),
    {
        let ghost views = events_view(events@);
        let mut i: usize = 0;
        assert(views.take(0) =~= Seq::<VtEventView>::empty());
        while i < events.len()
            invariant
                i <= events.len(),
                views == events_view(events@),
                self.wf(),
                self@ == old(self)@.apply_all(views.take(i as int)),
            decreases events.len() - i,
        {
            assert(views.take(i + 1).drop_last() =~= views.take(i as int));
            assert(views.take(i + 1).last() == events@[i as int]@);
            self.apply(&events[i]);
            i = i + 1;
        }
        assert(views.take(events.len() as int) =~= views);
    }

    /// Feeds bytes to the terminal's parser and carries out what it reports.
    /// Whatever the bytes are, the cursor stays on the screen and the
    /// geometry and the buffer's length stay as they were.
    pub fn write_bytes(&mut self, bytes: &[u8])
        requires
            old(self).wf(),
        ensures
            final(self).wf(),
            final(self)@ == old(self)@.fed(final(self)@.parser, bytes@),
            old(self)@.keeps(final(self)@),
    {
        let events = advance(&mut self.parser, bytes);
        proof {
            lemma_apply_all_keeps(self@, events_view(events@));
            assert(self@ == (Screen { parser: self@.parser, ..old(self)@ }));
        }
        self.apply_events(&events);
    }

    /// Writes a string through the parser.
    pub fn write_str(&mut self, s: &str)
        requires
            old(self).wf(),
        ensures
            final(self).wf(),
            final(self)@ == old(self)@.fed(final(self)@.parser, s.spec_bytes()),
            old(self)@.keeps(final(self)@),
    {
        self.write_bytes(s.as_bytes());
    }
}

impl Screen {
    /// `after` is a well-formed screen of the same geometry, palette and
    /// buffer length as this one.
    pub open spec fn keeps(self, after: Screen) -> bool {
        &&& after.wf()
        &&& after.info == self.info
        &&& after.palette == self.palette
        &&& after.fb.len() == self.fb.len()
    }
}

proof fn lemma_write_char_keeps(screen: Screen, c: char)
    requires
        screen.wf(),
    ensures
        screen.keeps(screen.write_char(c)),
        screen.write_char(c).parser == screen.parser,
{
    if c != '\n' && c != '\r' {
        let room = screen.make_room();
        assert(screen.keeps(room));
        assert(room.x + CHAR_RASTER_WIDTH < room.info.width);
    }
}

proof fn lemma_write_byte_keeps(screen: Screen, byte: u8)
    requires
        screen.wf(),
    ensures
        screen.keeps(screen.write_byte(byte)),
        screen.write_byte(byte).parser == screen.parser,
{
    if byte == 0x08 {
    } else if spec_is_printable(byte) {
        lemma_write_char_keeps(screen, byte as char);
    } else {
        lemma_write_char_keeps(screen, BACKUP_CHAR);
    }
}

proof fn lemma_csi_keeps(screen: Screen, params: Seq<u16>, action: char)
    requires
        screen.wf(),
    ensures
        screen.keeps(screen.csi(params, action)),
        screen.csi(params, action).parser == screen.parser,
{
}

/// One action of the parser leaves the cursor on the screen, and leaves the
/// geometry, the palette and the buffer's length as they were.
pub proof fn lemma_apply_keeps(screen: Screen, event: VtEventView)
    requires
        screen.wf(),
    ensures
        screen.keeps(screen.apply(event)),
        screen.apply(event).parser == screen.parser,
{
    match event {
        VtEventView::Print(c) => lemma_write_char_keeps(screen, c),
        VtEventView::Execute(byte) => lemma_write_byte_keeps(screen, byte),
        VtEventView::Csi { params, action } => lemma_csi_keeps(screen, params, action),
    }
}

/// Whatever actions the parser reports, and so whatever bytes it was fed,
/// the cursor stays within the screen.
pub proof fn lemma_apply_all_keeps(screen: Screen, events: Seq<VtEventView>)
    requires
        screen.wf(),
    ensures
        screen.keeps(screen.apply_all(events)),
        screen.apply_all(events).parser == screen.parser,
    decreases events.len(),
{
    if events.len() > 0 {
        lemma_apply_all_keeps(screen, events.drop_last());
        lemma_apply_keeps(screen.apply_all(events.drop_last()), events.last());
    }
}


/// Sets up the terminal over a framebuffer, where the geometry fits it.
pub fn init(framebuffer: Vec<u8>, info: FrameBufferInfo) -> (writer: Option<FrameBufferWriter>)
    ensures
        writer is Some == info.fits(framebuffer@.len()),
        writer is Some ==> writer.unwrap().wf() && writer.unwrap()@ == (Screen {
            fb: framebuffer@,
            info,
            x: 0,
            y: 0,
            fg: FG,
            bg: BG,
            palette: writer.unwrap()@.palette,
            echo: true,
            parser: writer.unwrap()@.parser,
        }).clear() && writer.unwrap()@.palette.colors@ == Palette::spec_default() && is_fresh(
            writer.unwrap()@.parser,
        ),
{
    if info.check_fits(framebuffer.len()) {
        Some(FrameBufferWriter::new(framebuffer, info))
    } else {
        None
    }
}

/// Prints text on the terminal: the text goes through the terminal's
/// parser, and what the parser reports is carried out.
pub fn print_fmt(writer: &mut FrameBufferWriter, text: &str)
    requires
        old(writer).wf(),
    ensures
        final(writer).wf(),
        final(writer)@ == old(writer)@.fed(final(writer)@.parser, text.spec_bytes()),
        old(writer)@.keeps(final(writer)@),
{
    writer.write_str(text);
}

/// Width of the screen in pixels.
pub fn cols(writer: &FrameBufferWriter) -> (cols: usize)
    ensures
        cols == writer@.info.width,
{
    writer.width()
}

/// Height of the screen in pixels.
pub fn rows(writer: &FrameBufferWriter) -> (rows: usize)
    ensures
        rows == writer@.info.height,
{
    writer.height()
}

/// Foreground and background of the terminal.
pub fn color(writer: &FrameBufferWriter) -> (colors: (Color, Color))
    ensures
        colors.0 == writer@.fg,
        colors.1 == writer@.bg,
{
    writer.color()
}

pub fn set_color(writer: &mut FrameBufferWriter, foreground: Color, background: Color)
    ensures
        final(writer)@ == (Screen { fg: foreground, bg: background, ..old(writer)@ }),
{
    writer.set_color(foreground, background);
}

pub fn set_palette(writer: &mut FrameBufferWriter, palette: Palette)
    ensures
        final(writer)@ == (Screen { palette, ..old(writer)@ }),
{
    writer.set_palette(palette);
}

} // verus!
