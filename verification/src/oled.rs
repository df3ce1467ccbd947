//! The frame buffer of the 128 by 32 display and what is drawn into it.
//!
//! The display is organised in four pages of 128 columns; a byte of the
//! buffer holds the eight pixels of one column of one page, the topmost in
//! its lowest bit. Writing to the bus is left to the caller: the functions
//! here say what is to be written.

use vstd::prelude::*;
use crate::text::{
    chars_start_with, first_occurrence, from_chars, lines, split, split_chars, split_lines,
    split_whitespace, starts_with, to_chars, trim, trim_chars, views, word_at, lemma_split_nonempty,
};

verus! {

/// Columns of the display.
pub const WIDTH: usize = 128;

/// Rows of the display.
pub const HEIGHT: usize = 32;

/// Pages of the display: bands of eight rows.
pub const PAGES: usize = 4;

/// Bytes of the frame buffer.
pub const BUFFER_LEN: usize = 512;

/// The control byte that announces a command.
pub const CONTROL_COMMAND: u8 = 0x00;

/// The control byte that announces a byte of the picture.
pub const CONTROL_DATA: u8 = 0x40;

/// The font: five columns for each of the characters from the space, code
/// point 32, to code point 127.
pub const FONT_5X8: [u8; 480] = [
    0x00, 0x00, 0x00, 0x00, 0x00,  // space
    0x00, 0x00, 0x5f, 0x00, 0x00,  // !
    0x00, 0x07, 0x00, 0x07, 0x00,  // "
    0x14, 0x7f, 0x14, 0x7f, 0x14,  // #
    0x24, 0x2a, 0x7f, 0x2a, 0x12,  // $
    0x23, 0x13, 0x08, 0x64, 0x62,  // %
    0x36, 0x49, 0x55, 0x22, 0x50,  // &
    0x00, 0x05, 0x03, 0x00, 0x00,  // '
    0x00, 0x1c, 0x22, 0x41, 0x00,  // (
    0x00, 0x41, 0x22, 0x1c, 0x00,  // )
    0x08, 0x2a, 0x1c, 0x2a, 0x08,  // *
    0x08, 0x08, 0x3e, 0x08, 0x08,  // +
    0x00, 0x50, 0x30, 0x00, 0x00,  // ,
    0x08, 0x08, 0x08, 0x08, 0x08,  // -
    0x00, 0x60, 0x60, 0x00, 0x00,  // .
    0x20, 0x10, 0x08, 0x04, 0x02,  // /
    0x3e, 0x51, 0x49, 0x45, 0x3e,  // 0
    0x00, 0x42, 0x7f, 0x40, 0x00,  // 1
    0x42, 0x61, 0x51, 0x49, 0x46,  // 2
    0x21, 0x41, 0x45, 0x4b, 0x31,  // 3
    0x18, 0x14, 0x12, 0x7f, 0x10,  // 4
    0x27, 0x45, 0x45, 0x45, 0x39,  // 5
    0x3c, 0x4a, 0x49, 0x49, 0x30,  // 6
    0x01, 0x71, 0x09, 0x05, 0x03,  // 7
    0x36, 0x49, 0x49, 0x49, 0x36,  // 8
    0x06, 0x49, 0x49, 0x29, 0x1e,  // 9
    0x00, 0x36, 0x36, 0x00, 0x00,  // :
    0x00, 0x56, 0x36, 0x00, 0x00,  // ;
    0x00, 0x08, 0x14, 0x22, 0x41,  // <
    0x14, 0x14, 0x14, 0x14, 0x14,  // =
    0x41, 0x22, 0x14, 0x08, 0x00,  // >
    0x02, 0x01, 0x51, 0x09, 0x06,  // ?
    0x32, 0x49, 0x79, 0x41, 0x3e,  // @
    0x7e, 0x11, 0x11, 0x11, 0x7e,  // A
    0x7f, 0x49, 0x49, 0x49, 0x36,  // B
    0x3e, 0x41, 0x41, 0x41, 0x22,  // C
    0x7f, 0x41, 0x41, 0x22, 0x1c,  // D
    0x7f, 0x49, 0x49, 0x49, 0x41,  // E
    0x7f, 0x09, 0x09, 0x01, 0x01,  // F
    0x3e, 0x41, 0x41, 0x51, 0x32,  // G
    0x7f, 0x08, 0x08, 0x08, 0x7f,  // H
    0x00, 0x41, 0x7f, 0x41, 0x00,  // I
    0x20, 0x40, 0x41, 0x3f, 0x01,  // J
    0x7f, 0x08, 0x14, 0x22, 0x41,  // K
    0x7f, 0x40, 0x40, 0x40, 0x40,  // L
    0x7f, 0x02, 0x04, 0x02, 0x7f,  // M
    0x7f, 0x04, 0x08, 0x10, 0x7f,  // N
    0x3e, 0x41, 0x41, 0x41, 0x3e,  // O
    0x7f, 0x09, 0x09, 0x09, 0x06,  // P
    0x3e, 0x41, 0x51, 0x21, 0x5e,  // Q
    0x7f, 0x09, 0x19, 0x29, 0x46,  // R
    0x46, 0x49, 0x49, 0x49, 0x31,  // S
    0x01, 0x01, 0x7f, 0x01, 0x01,  // T
    0x3f, 0x40, 0x40, 0x40, 0x3f,  // U
    0x1f, 0x20, 0x40, 0x20, 0x1f,  // V
    0x7f, 0x20, 0x18, 0x20, 0x7f,  // W
    0x63, 0x14, 0x08, 0x14, 0x63,  // X
    0x03, 0x04, 0x78, 0x04, 0x03,  // Y
    0x61, 0x51, 0x49, 0x45, 0x43,  // Z
    0x00, 0x00, 0x7f, 0x41, 0x41,  // [
    0x02, 0x04, 0x08, 0x10, 0x20,  // backslash
    0x41, 0x41, 0x7f, 0x00, 0x00,  // ]
    0x04, 0x02, 0x01, 0x02, 0x04,  // ^
    0x40, 0x40, 0x40, 0x40, 0x40,  // _
    0x00, 0x01, 0x02, 0x04, 0x00,  // `
    0x20, 0x54, 0x54, 0x54, 0x78,  // a
    0x7f, 0x48, 0x44, 0x44, 0x38,  // b
    0x38, 0x44, 0x44, 0x44, 0x20,  // c
    0x38, 0x44, 0x44, 0x48, 0x7f,  // d
    0x38, 0x54, 0x54, 0x54, 0x18,  // e
    0x08, 0x7e, 0x09, 0x01, 0x02,  // f
    0x08, 0x14, 0x54, 0x54, 0x3c,  // g
    0x7f, 0x08, 0x04, 0x04, 0x78,  // h
    0x00, 0x44, 0x7d, 0x40, 0x00,  // i
    0x20, 0x40, 0x44, 0x3d, 0x00,  // j
    0x00, 0x7f, 0x10, 0x28, 0x44,  // k
    0x00, 0x41, 0x7f, 0x40, 0x00,  // l
    0x7c, 0x04, 0x18, 0x04, 0x78,  // m
    0x7c, 0x08, 0x04, 0x04, 0x78,  // n
    0x38, 0x44, 0x44, 0x44, 0x38,  // o
    0x7c, 0x14, 0x14, 0x14, 0x08,  // p
    0x08, 0x14, 0x14, 0x18, 0x7c,  // q
    0x7c, 0x08, 0x04, 0x04, 0x08,  // r
    0x48, 0x54, 0x54, 0x54, 0x20,  // s
    0x04, 0x3f, 0x44, 0x40, 0x20,  // t
    0x3c, 0x40, 0x40, 0x20, 0x7c,  // u
    0x1c, 0x20, 0x40, 0x20, 0x1c,  // v
    0x3c, 0x40, 0x30, 0x40, 0x3c,  // w
    0x44, 0x28, 0x10, 0x28, 0x44,  // x
    0x0c, 0x50, 0x50, 0x50, 0x3c,  // y
    0x44, 0x64, 0x54, 0x4c, 0x44,  // z
    0x00, 0x08, 0x36, 0x41, 0x00,  // {
    0x00, 0x00, 0x7f, 0x00, 0x00,  // |
    0x00, 0x41, 0x36, 0x08, 0x00,  // }
    0x08, 0x08, 0x2a, 0x1c, 0x08,  // ~
    0x08, 0x1c, 0x2a, 0x08, 0x08,  // delete
];

/// The commands that start the display up.
pub const INIT_COMMANDS: [u8; 23] = [0xae, 0x40, 0xb0, 0xc8, 0x81, 0xff, 0xa1, 0xa6, 0xa8, 0x1f, 0xd3, 0x00, 0xd5, 0xf0, 0xd9, 0x22, 0xda, 0x02, 0xdb, 0x49, 0x8d, 0x14, 0xaf];

/// One write to the bus: a control byte and the byte that it announces.
#[derive(Clone, Copy, Debug, PartialEq, Eq, Structural)]
pub struct BusWrite {
    pub control: u8,
    pub value: u8,
}

/// The frame buffer of the display.
pub struct Oled {
    pub buffer: [u8; 512],
}

impl View for Oled {
    type V = Seq<u8>;

    open spec fn view(&self) -> Seq<u8> {
        self.buffer@
    }
}

/// Whether the font has a picture of `c`.
pub open spec fn has_glyph(c: char) -> bool {
    32 <= c as u32 <= 127
}

/// Column `i` of the picture of `c`.
pub open spec fn glyph(c: char, i: int) -> u8 {
    FONT_5X8@[(c as u32 - 32) * 5 + i]
}

/// The buffer `buf` with the picture of `c` drawn at column `x` of page
/// `page`. Nothing is drawn where the font has no picture of `c` or the five
/// columns do not fit.
pub open spec fn spec_draw_char(buf: Seq<u8>, x: int, page: int, c: char) -> Seq<u8> {
    if has_glyph(c) && x + 5 <= WIDTH && page < PAGES {
        Seq::new(
            buf.len(),
            |k: int|
                if page * WIDTH + x <= k < page * WIDTH + x + 5 {
                    glyph(c, k - (page * WIDTH + x))
                } else {
                    buf[k]
                },
        )
    } else {
        buf
    }
}

/// The buffer `buf` with the characters of `s` drawn from column `x` of page
/// `page` on, six columns apart. Drawing stops at the first character that
/// would not leave its place and the gap behind it on the display.
pub open spec fn spec_draw_string(buf: Seq<u8>, x: int, page: int, s: Seq<char>) -> Seq<u8>
    decreases s.len(),
{
    if s.len() == 0 || x + 6 > WIDTH {
        buf
    } else {
        spec_draw_string(spec_draw_char(buf, x, page, s[0]), x + 6, page, s.skip(1))
    }
}

/// The four bits of `n` below bit 4, each doubled: bit `i` is bits `2i` and
/// `2i + 1` of the result.
pub open spec fn spread(n: u8) -> u8 {
    (if n & 1 != 0 {
        3u8
    } else {
        0u8
    }) | (if n & 2 != 0 {
        12u8
    } else {
        0u8
    }) | (if n & 4 != 0 {
        48u8
    } else {
        0u8
    }) | (if n & 8 != 0 {
        192u8
    } else {
        0u8
    })
}

/// The buffer `buf` with the picture of `c` drawn at twice its size at column
/// `x` of pages `page` and `page + 1`: every column twice, the upper half of
/// each in the upper page and the lower half in the lower. Nothing is drawn
/// where the font has no picture of `c` or the picture does not fit.
pub open spec fn spec_draw_char_2x(buf: Seq<u8>, x: int, page: int, c: char) -> Seq<u8> {
    if has_glyph(c) && x + 10 <= WIDTH && page + 1 < PAGES {
        Seq::new(
            buf.len(),
            |k: int|
                if page * WIDTH + x <= k < page * WIDTH + x + 10 {
                    spread(glyph(c, (k - (page * WIDTH + x)) / 2) & 0x0f)
                } else if (page + 1) * WIDTH + x <= k < (page + 1) * WIDTH + x + 10 {
                    spread(glyph(c, (k - ((page + 1) * WIDTH + x)) / 2) >> 4)
                } else {
                    buf[k]
                },
        )
    } else {
        buf
    }
}

/// The buffer `buf` with the characters of `s` drawn at twice their size
/// from column `x` of page `page` on, twelve columns apart.
pub open spec fn spec_draw_string_2x(buf: Seq<u8>, x: int, page: int, s: Seq<char>) -> Seq<u8>
    decreases s.len(),
{
    if s.len() == 0 || x + 12 > WIDTH {
        buf
    } else {
        spec_draw_string_2x(spec_draw_char_2x(buf, x, page, s[0]), x + 12, page, s.skip(1))
    }
}

/// A buffer in which no pixel is lit.
pub open spec fn blank() -> Seq<u8> {
    Seq::new(BUFFER_LEN as nat, |k: int| 0u8)
}

/// What is written to the bus to show the buffer: for each page the three
/// commands that select the page and its first column, and then the 128
/// bytes of the page.
pub open spec fn spec_display(buf: Seq<u8>) -> Seq<BusWrite> {
    Seq::new(
        524,
        |k: int|
            if k % 131 == 0 {
                BusWrite { control: CONTROL_COMMAND, value: (0xb0 + k / 131) as u8 }
            } else if k % 131 == 1 {
                BusWrite { control: CONTROL_COMMAND, value: 0x00 }
            } else if k % 131 == 2 {
                BusWrite { control: CONTROL_COMMAND, value: 0x10 }
            } else {
                BusWrite { control: CONTROL_DATA, value: buf[(k / 131) * 128 + k % 131 - 3] }
            },
    )
}

/// What is written to the bus to start the display up: its start-up
/// commands, in order.
pub open spec fn spec_init() -> Seq<BusWrite> {
    Seq::new(23, |k: int| BusWrite { control: CONTROL_COMMAND, value: INIT_COMMANDS@[k] })
}

/// The column at which dash `i` of the moving line starts in frame `frame`.
pub open spec fn dash_start(frame: u8, i: int) -> int {
    (frame + i * 22) % 128
}

/// The buffer `buf` with a dash of eight columns drawn into the third page
/// from column `start` on, as far as the display reaches.
pub open spec fn spec_dash(buf: Seq<u8>, start: int) -> Seq<u8> {
    Seq::new(
        buf.len(),
        |k: int|
            if 2 * WIDTH + start <= k < 2 * WIDTH + start + 8 && k < 3 * WIDTH {
                0x18u8
            } else {
                buf[k]
            },
    )
}

/// The buffer `buf` with the first `n` dashes of frame `frame` drawn.
pub open spec fn spec_dashes(buf: Seq<u8>, frame: u8, n: nat) -> Seq<u8>
    decreases n,
{
    if n == 0 {
        buf
    } else {
        spec_dash(spec_dashes(buf, frame, (n - 1) as nat), dash_start(frame, n - 1))
    }
}

/// The column from which a text of `len` bytes is drawn so that it stands in
/// the middle of the display; zero for a text that is too long for that.
pub open spec fn centered(len: nat) -> int {
    if len * 6 >= WIDTH {
        0
    } else {
        (WIDTH - len * 6) / 2
    }
}

/// The picture of one frame: the time at twice its size in the two upper
/// pages, six moving dashes in the third, and the address in the middle of
/// the fourth.
pub open spec fn spec_frame(time: Seq<char>, ip: Seq<char>, ip_len: nat, frame: u8) -> Seq<u8> {
    spec_draw_string(
        spec_dashes(spec_draw_string_2x(blank(), 16, 0, time), frame, 6),
        centered(ip_len),
        3,
        ip,
    )
}

/// The four low bits of `n`, each doubled.
fn spread_bits(n: u8) -> (r: u8)
    ensures
        r == spread(n),
{
    (if n & 1 != 0 {
        3u8
    } else {
        0u8
    }) | (if n & 2 != 0 {
        12u8
    } else {
        0u8
    }) | (if n & 4 != 0 {
        48u8
    } else {
        0u8
    }) | (if n & 8 != 0 {
        192u8
    } else {
        0u8
    })
}

impl Oled {
    /// A buffer in which no pixel is lit.
    pub fn new() -> (r: Self)
        ensures
            r@ == blank(),
    {
        let r = Oled { buffer: [0u8;512] };
        assert(r@ =~= blank());
        r
    }

    /// What is written to the bus to start the display up.
    pub fn init(&self) -> (writes: Vec<BusWrite>)
        ensures
            writes@ == spec_init(),
    {
        let mut writes: Vec<BusWrite> = Vec::new();
        let mut i: usize = 0;
        while i < 23
            invariant
                i <= 23,
                writes@ == spec_init().take(i as int),
            decreases 23 - i,
        {
            writes.push(BusWrite { control: CONTROL_COMMAND, value: INIT_COMMANDS[i] });
            assert(writes@ =~= spec_init().take(i + 1));
            i += 1;
        }
        assert(spec_init().take(23) =~= spec_init());
        writes
    }

    /// Puts every pixel out.
    pub fn clear(&mut self)
        ensures
            final(self)@ == blank(),
    {
        self.buffer = [0u8;512];
        assert(self@ =~= blank());
    }

    /// What is written to the bus to show the buffer.
    pub fn display(&self) -> (writes: Vec<BusWrite>)
        ensures
            writes@ == spec_display(self@),
    {
        let mut writes: Vec<BusWrite> = Vec::new();
        let mut page: usize = 0;
        while page < 4
            invariant
                page <= 4,
                writes@ == spec_display(self@).take(page * 131),
            decreases 4 - page,
        {
            writes.push(BusWrite { control: CONTROL_COMMAND, value: 0xb0 + page as u8 });
            writes.push(BusWrite { control: CONTROL_COMMAND, value: 0x00 });
            writes.push(BusWrite { control: CONTROL_COMMAND, value: 0x10 });
            assert(writes@ =~= spec_display(self@).take(page * 131 + 3));
            let mut col: usize = 0;
            while col < 128
                invariant
                    page < 4,
                    col <= 128,
                    writes@ == spec_display(self@).take(page * 131 + 3 + col),
                decreases 128 - col,
            {
                writes.push(
                    BusWrite { control: CONTROL_DATA, value: self.buffer[page * 128 + col] },
                );
                assert(writes@ =~= spec_display(self@).take(page * 131 + 3 + col + 1));
                col += 1;
            }
            page += 1;
        }
        assert(spec_display(self@).take(524) =~= spec_display(self@));
        writes
    }

    /// Draws the picture of `c` at column `x` of page `page`.
    pub fn draw_char(&mut self, x: usize, page: usize, c: char)
        ensures
            final(self)@ == spec_draw_char(old(self)@, x as int, page as int, c),
    {
        let code = c as u32;
        if code < 32 || code > 127 || x > WIDTH - 5 || page >= PAGES {
            return ;
        }
        let offset: usize = (code as usize - 32) * 5;
        let base: usize = page * WIDTH + x;
        let ghost before = self@;
        let mut i: usize = 0;
        assert(self@ =~= Seq::new(
            512,
            |k: int|
                if base <= k < base + 0 {
                    glyph(c, k - base)
                } else {
                    before[k]
                },
        ));
        while i < 5
            invariant
                i <= 5,
                base + 5 <= 512,
                offset + 5 <= 480,
                offset == (c as u32 - 32) * 5,
                before.len() == 512,
                self@ == Seq::new(
                    512,
                    |k: int|
                        if base <= k < base + i {
                            glyph(c, k - base)
                        } else {
                            before[k]
                        },
                ),
            decreases 5 - i,
        {
            self.buffer[base + i] = FONT_5X8[offset + i];
            assert(self@ =~= Seq::new(
                512,
                |k: int|
                    if base <= k < base + i + 1 {
                        glyph(c, k - base)
                    } else {
                        before[k]
                    },
            ));
            i += 1;
        }
        assert(self@ =~= spec_draw_char(before, x as int, page as int, c));
    }

    /// Draws `s` from column `x` of page `page` on.
    pub fn draw_string(&mut self, x: usize, page: usize, s: &str)
        ensures
            final(self)@ == spec_draw_string(old(self)@, x as int, page as int, s@),
    {
        let chars = to_chars(s);
        let ghost before = self@;
        let mut col: usize = x;
        let mut i: usize = 0;
        assert(s@.skip(0) =~= s@);
        while i < chars.len() && col <= WIDTH - 6
            invariant
                i <= chars.len(),
                chars@ == s@,
                spec_draw_string(self@, col as int, page as int, s@.skip(i as int))
                    == spec_draw_string(before, x as int, page as int, s@),
            decreases chars.len() - i,
        {
            assert(s@.skip(i as int)[0] == chars@[i as int]);
            assert(s@.skip(i as int).skip(1) =~= s@.skip(i + 1));
            self.draw_char(col, page, chars[i]);
            col += 6;
            i += 1;
        }
    }

    /// Draws the picture of `c` at twice its size at column `x` of pages
    /// `page` and `page + 1`.
    pub fn draw_char_2x(&mut self, x: usize, page: usize, c: char)
        ensures
            final(self)@ == spec_draw_char_2x(old(self)@, x as int, page as int, c),
    {
        let code = c as u32;
        if code < 32 || code > 127 || x > WIDTH - 10 || page >= PAGES - 1 {
            return ;
        }
        let offset: usize = (code as usize - 32) * 5;
        let upper: usize = page * WIDTH + x;
        let lower: usize = (page + 1) * WIDTH + x;
        let ghost before = self@;
        let mut i: usize = 0;
        assert(self@ =~= Seq::new(
            512,
            |k: int|
                if upper <= k < upper + 0 {
                    spread(glyph(c, (k - upper) / 2) & 0x0f)
                } else if lower <= k < lower + 0 {
                    spread(glyph(c, (k - lower) / 2) >> 4)
                } else {
                    before[k]
                },
        ));
        while i < 5
            invariant
                i <= 5,
                upper + 10 <= lower,
                lower + 10 <= 512,
                offset + 5 <= 480,
                offset == (c as u32 - 32) * 5,
                before.len() == 512,
                self@ == Seq::new(
                    512,
                    |k: int|
                        if upper <= k < upper + 2 * i {
                            spread(glyph(c, (k - upper) / 2) & 0x0f)
                        } else if lower <= k < lower + 2 * i {
                            spread(glyph(c, (k - lower) / 2) >> 4)
                        } else {
                            before[k]
                        },
                ),
            decreases 5 - i,
        {
            let column = FONT_5X8[offset + i];
            let top = spread_bits(column & 0x0f);
            let bottom = spread_bits(column >> 4);
            self.buffer[upper + i * 2] = top;
            self.buffer[upper + i * 2 + 1] = top;
            self.buffer[lower + i * 2] = bottom;
            self.buffer[lower + i * 2 + 1] = bottom;
            assert(self@ =~= Seq::new(
                512,
                |k: int|
                    if upper <= k < upper + 2 * (i + 1) {
                        spread(glyph(c, (k - upper) / 2) & 0x0f)
                    } else if lower <= k < lower + 2 * (i + 1) {
                        spread(glyph(c, (k - lower) / 2) >> 4)
                    } else {
                        before[k]
                    },
            ));
            i += 1;
        }
        assert(self@ =~= spec_draw_char_2x(before, x as int, page as int, c));
    }

    /// Draws `s` at twice its size from column `x` of page `page` on.
    pub fn draw_string_2x(&mut self, x: usize, page: usize, s: &str)
        ensures
            final(self)@ == spec_draw_string_2x(old(self)@, x as int, page as int, s@),
    {
        let chars = to_chars(s);
        let ghost before = self@;
        let mut col: usize = x;
        let mut i: usize = 0;
        assert(s@.skip(0) =~= s@);
        while i < chars.len() && col <= WIDTH - 12
            invariant
                i <= chars.len(),
                chars@ == s@,
                spec_draw_string_2x(self@, col as int, page as int, s@.skip(i as int))
                    == spec_draw_string_2x(before, x as int, page as int, s@),
            decreases chars.len() - i,
        {
            assert(s@.skip(i as int)[0] == chars@[i as int]);
            assert(s@.skip(i as int).skip(1) =~= s@.skip(i + 1));
            self.draw_char_2x(col, page, chars[i]);
            col += 12;
            i += 1;
        }
    }

    /// Draws the six dashes of the moving line of frame `frame`.
    pub fn draw_dashes(&mut self, frame: u8)
        ensures
            final(self)@ == spec_dashes(old(self)@, frame, 6),
    {
        let ghost before = self@;
        let mut i: usize = 0;
        while i < 6
            invariant
                i <= 6,
                self@.len() == 512,
                self@ == spec_dashes(before, frame, i as nat),
            decreases 6 - i,
        {
            let start: usize = (frame as usize + i * 22) % WIDTH;
            let ghost row = self@;
            let mut j: usize = 0;
            assert(self@ =~= Seq::new(
                512,
                |k: int|
                    if 256 + start <= k < 256 + start + 0 && k < 384 {
                        0x18u8
                    } else {
                        row[k]
                    },
            ));
            while j < 8
                invariant
                    j <= 8,
                    start < 128,
                    row.len() == 512,
                    self@ == Seq::new(
                        512,
                        |k: int|
                            if 256 + start <= k < 256 + start + j && k < 384 {
                                0x18u8
                            } else {
                                row[k]
                            },
                    ),
                decreases 8 - j,
            {
                if start + j < WIDTH {
                    self.buffer[2 * WIDTH + start + j] = 0x18;
                }
                assert(self@ =~= Seq::new(
                    512,
                    |k: int|
                        if 256 + start <= k < 256 + start + j + 1 && k < 384 {
                            0x18u8
                        } else {
                            row[k]
                        },
                ));
                j += 1;
            }
            assert(self@ =~= spec_dash(row, start as int));
            i += 1;
        }
    }

    /// Draws frame `frame` of the picture that shows the time and the
    /// address.
    pub fn render_frame(&mut self, time: &str, ip: &str, frame: u8)
        ensures
            final(self)@ == spec_frame(time@, ip@, ip.len() as nat, frame),
    {
        self.clear();
        self.draw_string_2x(16, 0, time);
        self.draw_dashes(frame);
        let n = ip.len();
        let x: usize = if n >= 22 {
            0
        } else {
            (WIDTH - n * 6) / 2
        };
        self.draw_string(x, 3, ip);
    }
}

/// The frame that follows `frame`: the moving line is three columns further.
pub fn next_frame(frame: u8) -> (r: u8)
    ensures
        r == (frame + 3) % 256,
{
    frame.wrapping_add(3)
}

/// The time as the clock command printed it, without the white space around
/// it, or dashes in its place where the command could not be run.
pub open spec fn spec_time(output: Option<Seq<char>>) -> Seq<char> {
    match output {
        Some(o) => trim(o),
        None => "--:--:--"@,
    }
}

/// The time to show, from what the clock command printed.
pub fn get_time(output: Option<&str>) -> (r: String)
    ensures
        r@ == spec_time(
            match output {
                Some(o) => Some(o@),
                None => None,
            },
        ),
{
    match output {
        Some(o) => {
            let chars = to_chars(o);
            from_chars(&trim_chars(&chars))
        },
        None => "--:--:--".to_owned(),
    }
}

/// The address in the first of `lines` that, white space aside, begins with
/// `inet ` and has a second word: that word, up to its first slash.
pub open spec fn first_address(lines: Seq<Seq<char>>) -> Option<Seq<char>>
    decreases lines.len(),
{
    if lines.len() == 0 {
        None
    } else if starts_with(trim(lines[0]), "inet "@) && word_at(trim(lines[0]), 1) is Some {
        Some(split(word_at(trim(lines[0]), 1)->0, '/')[0])
    } else {
        first_address(lines.skip(1))
    }
}

/// The address to show: that found in the listing of the interface's
/// addresses, or `No IP` where there is no listing or no address in it.
pub open spec fn spec_eth02_ip(listing: Option<Seq<char>>) -> Seq<char> {
    match listing {
        Some(l) => match first_address(lines(l)) {
            Some(a) => a,
            None => "No IP"@,
        },
        None => "No IP"@,
    }
}

/// The address to show, from the listing of the interface's addresses.
pub fn get_eth02_ip(listing: Option<&str>) -> (r: String)
    ensures
        r@ == spec_eth02_ip(
            match listing {
                Some(l) => Some(l@),
                None => None,
            },
        ),
{
    let text = match listing {
        Some(text) => text,
        None => {
            return "No IP".to_owned();
        },
    };
    let chars = to_chars(text);
    let ls = split_lines(&chars);
    let mark = to_chars("inet ");
    let mut i: usize = 0;
    assert(views(ls@).skip(0) =~= views(ls@));
    while i < ls.len()
        invariant
            i <= ls.len(),
            mark@ == "inet "@,
            listing == Some(text),
            views(ls@) == lines(text@),
            first_address(views(ls@)) == first_address(views(ls@).skip(i as int)),
        decreases ls.len() - i,
    {
        assert(views(ls@).skip(i as int)[0] == ls@[i as int]@);
        let line = trim_chars(&ls[i]);
        if chars_start_with(&line, &mark) {
            let w = split_whitespace(&line);
            if w.len() > 1 {
                assert(views(w@)[1] == w@[1]@);
                let parts = split_chars(&w[1], '/');
                proof {
                    lemma_split_nonempty(w@[1]@, '/');
                    assert(views(parts@)[0] == parts@[0]@);
                }
                return from_chars(&parts[0]);
            }
        }
        assert(views(ls@).skip(i as int).skip(1) =~= views(ls@).skip(i + 1));
        i += 1;
    }
    "No IP".to_owned()
}

} // verus!
