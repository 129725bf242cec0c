//! The tray badge: up to two short lines of text drawn into a 32 by 32
//! RGBA image with a 5 by 7 bitmap font at twice its size.

use vstd::prelude::*;
use crate::text::str_to_chars;

verus! {

/// The rows of the bitmap glyph of `ch` (bit 0 is the leftmost pixel);
/// `None` for a character the font does not have.
pub open spec fn glyph_rows(ch: char) -> Option<Seq<u8>> {
    match ch {
        '0' => Some(seq![0x0E, 0x11, 0x11, 0x11, 0x11, 0x11, 0x0E]),
        '1' => Some(seq![0x04, 0x0C, 0x04, 0x04, 0x04, 0x04, 0x0E]),
        '2' => Some(seq![0x0E, 0x11, 0x01, 0x02, 0x04, 0x08, 0x1F]),
        '3' => Some(seq![0x1E, 0x01, 0x01, 0x0E, 0x01, 0x01, 0x1E]),
        '4' => Some(seq![0x02, 0x06, 0x0A, 0x12, 0x1F, 0x02, 0x02]),
        '5' => Some(seq![0x1F, 0x10, 0x1E, 0x01, 0x01, 0x11, 0x0E]),
        '6' => Some(seq![0x0E, 0x10, 0x10, 0x1E, 0x11, 0x11, 0x0E]),
        '7' => Some(seq![0x1F, 0x01, 0x02, 0x04, 0x08, 0x08, 0x08]),
        '8' => Some(seq![0x0E, 0x11, 0x11, 0x0E, 0x11, 0x11, 0x0E]),
        '9' => Some(seq![0x0E, 0x11, 0x11, 0x0F, 0x01, 0x01, 0x0E]),
        'C' => Some(seq![0x0E, 0x11, 0x10, 0x10, 0x10, 0x11, 0x0E]),
        'M' => Some(seq![0x11, 0x1B, 0x15, 0x11, 0x11, 0x11, 0x11]),
        'K' => Some(seq![0x11, 0x12, 0x14, 0x18, 0x14, 0x12, 0x11]),
        'B' => Some(seq![0x1E, 0x11, 0x11, 0x1E, 0x11, 0x11, 0x1E]),
        'G' => Some(seq![0x0E, 0x11, 0x10, 0x17, 0x11, 0x11, 0x0E]),
        '.' => Some(seq![0x00, 0x00, 0x00, 0x00, 0x00, 0x00, 0x04]),
        ' ' => Some(seq![0x00, 0x00, 0x00, 0x00, 0x00, 0x00, 0x00]),
        '↓' => Some(seq![0x04, 0x04, 0x04, 0x04, 0x04, 0x0E, 0x1F]),
        '↑' => Some(seq![0x1F, 0x0E, 0x04, 0x04, 0x04, 0x04, 0x04]),
        _ => None,
    }
}

/// The glyph of `ch` (see [`glyph_rows`]).
pub fn glyph(ch: char) -> (r: Option<[u8; 7]>)
    ensures
        match r {
            Some(g) => glyph_rows(ch) == Some(g@),
            None => glyph_rows(ch) is None,
        },
{
    let r = match ch {
        '0' => Some([0x0E, 0x11, 0x11, 0x11, 0x11, 0x11, 0x0E]),
        '1' => Some([0x04, 0x0C, 0x04, 0x04, 0x04, 0x04, 0x0E]),
        '2' => Some([0x0E, 0x11, 0x01, 0x02, 0x04, 0x08, 0x1F]),
        '3' => Some([0x1E, 0x01, 0x01, 0x0E, 0x01, 0x01, 0x1E]),
        '4' => Some([0x02, 0x06, 0x0A, 0x12, 0x1F, 0x02, 0x02]),
        '5' => Some([0x1F, 0x10, 0x1E, 0x01, 0x01, 0x11, 0x0E]),
        '6' => Some([0x0E, 0x10, 0x10, 0x1E, 0x11, 0x11, 0x0E]),
        '7' => Some([0x1F, 0x01, 0x02, 0x04, 0x08, 0x08, 0x08]),
        '8' => Some([0x0E, 0x11, 0x11, 0x0E, 0x11, 0x11, 0x0E]),
        '9' => Some([0x0E, 0x11, 0x11, 0x0F, 0x01, 0x01, 0x0E]),
        'C' => Some([0x0E, 0x11, 0x10, 0x10, 0x10, 0x11, 0x0E]),
        'M' => Some([0x11, 0x1B, 0x15, 0x11, 0x11, 0x11, 0x11]),
        'K' => Some([0x11, 0x12, 0x14, 0x18, 0x14, 0x12, 0x11]),
        'B' => Some([0x1E, 0x11, 0x11, 0x1E, 0x11, 0x11, 0x1E]),
        'G' => Some([0x0E, 0x11, 0x10, 0x17, 0x11, 0x11, 0x0E]),
        '.' => Some([0x00, 0x00, 0x00, 0x00, 0x00, 0x00, 0x04]),
        ' ' => Some([0x00, 0x00, 0x00, 0x00, 0x00, 0x00, 0x00]),
        '↓' => Some([0x04, 0x04, 0x04, 0x04, 0x04, 0x0E, 0x1F]),
        '↑' => Some([0x1F, 0x0E, 0x04, 0x04, 0x04, 0x04, 0x04]),
        _ => None,
    };
    proof {
        if let Some(g) = r {
            assert(glyph_rows(ch) =~= Some(g@));
        }
    }
    r
}

/// Badge background (dark slate) and text colour (white).
pub open spec fn background() -> Seq<u8> {
    seq![0x1Eu8, 0x29u8, 0x3Bu8, 0xFFu8]
}

pub open spec fn foreground() -> Seq<u8> {
    seq![0xFFu8, 0xFFu8, 0xFFu8, 0xFFu8]
}

/// Pixel `(x, y)` of the badge is lit. Line `i` (of the first two) starts
/// at row `1 + 16 i` and is centred; each character is 10 pixels wide and
/// each glyph pixel a 2 by 2 block. A line that is empty or longer than
/// three characters is not drawn, nor is a character the font lacks.
pub open spec fn spec_pixel_on(lines: Seq<Seq<char>>, x: int, y: int) -> bool {
    if y < 1 {
        false
    } else {
        let i = (y - 1) / 16;
        let ry = (y - 1) % 16;
        if i >= 2 || i >= lines.len() || ry >= 14 {
            false
        } else {
            let n = lines[i].len() as int;
            if n == 0 || n > 3 {
                false
            } else {
                let x0 = (32 - n * 10) / 2;
                if x < x0 || x >= x0 + n * 10 {
                    false
                } else {
                    let ci = (x - x0) / 10;
                    let c = ((x - x0) % 10) / 2;
                    let r = ry / 2;
                    match glyph_rows(lines[i][ci]) {
                        None => false,
                        Some(g) => g[r] & (1u8 << (c as u8)) != 0,
                    }
                }
            }
        }
    }
}

fn pixel_on(lines: &Vec<Vec<char>>, x: u32, y: u32) -> (r: bool)
    requires
        x < 32,
        y < 32,
    ensures
        r == spec_pixel_on(lines@.map_values(|l: Vec<char>| l@), x as int, y as int),
{
    let ghost ls = lines@.map_values(|l: Vec<char>| l@);
    if y < 1 {
        return false;
    }
    let i = ((y - 1) / 16) as usize;
    let ry = (y - 1) % 16;
    if i >= 2 || i >= lines.len() || ry >= 14 {
        return false;
    }
    assert(ls[i as int] == lines@[i as int]@);
    let line = &lines[i];
    let n = line.len();
    if n == 0 || n > 3 {
        return false;
    }
    let w = (n as u32) * 10;
    let x0 = (32 - w) / 2;
    if x < x0 || x >= x0 + w {
        return false;
    }
    let ci = ((x - x0) / 10) as usize;
    let c = (((x - x0) % 10) / 2) as u8;
    let r = (ry / 2) as usize;
    assert(ci < n);
    match glyph(line[ci]) {
        None => false,
        Some(g) => g[r] & (1u8 << c) != 0,
    }
}

/// The characters of each line.
pub open spec fn str_views(lines: Seq<&str>) -> Seq<Seq<char>> {
    lines.map_values(|l: &str| l@)
}

/// Byte `b` of the colour of pixel `(x, y)`.
pub open spec fn icon_byte(lines: Seq<Seq<char>>, x: int, y: int, b: int) -> u8 {
    if spec_pixel_on(lines, x, y) {
        foreground()[b]
    } else {
        background()[b]
    }
}

/// Draws the badge: 32 rows of 32 RGBA pixels, row by row, each pixel in
/// the text colour where [`spec_pixel_on`] holds and in the background
/// colour elsewhere.
pub fn render_tray_icon(lines: &[&str]) -> (buf: Vec<u8>)
    ensures
        buf@.len() == 4096,
        forall|x: int, y: int, b: int|
            0 <= x < 32 && 0 <= y < 32 && 0 <= b < 4 ==> buf@[(y * 32 + x) * 4 + b] == #[trigger] icon_byte(
                str_views(lines@),
                x,
                y,
                b,
            ),
{
    let mut ls: Vec<Vec<char>> = Vec::new();
    let mut k: usize = 0;
    while k < lines.len()
        invariant
            k <= lines@.len(),
            ls@.len() == k,
            forall|j: int| 0 <= j < k ==> ls@[j]@ == lines@[j]@,
        decreases lines.len() - k,
    {
        ls.push(str_to_chars(lines[k]));
        k = k + 1;
    }
    let ghost sl = str_views(lines@);
    assert(ls@.map_values(|l: Vec<char>| l@) =~= sl);
    let bg: [u8; 4] = [0x1E, 0x29, 0x3B, 0xFF];
    let fg: [u8; 4] = [0xFF, 0xFF, 0xFF, 0xFF];
    assert(bg@ =~= background());
    assert(fg@ =~= foreground());
    let mut buf: Vec<u8> = Vec::new();
    let mut y: u32 = 0;
    while y < 32
        invariant
            y <= 32,
            ls@.map_values(|l: Vec<char>| l@) == sl,
            bg@ == background(),
            fg@ == foreground(),
            buf@.len() == y * 128,
            forall|px: int, py: int, b: int|
                0 <= px < 32 && 0 <= py < y && 0 <= b < 4 ==> buf@[(py * 32 + px) * 4 + b]
                    == #[trigger] icon_byte(sl, px, py, b),
        decreases 32 - y,
    {
        let mut x: u32 = 0;
        while x < 32
            invariant
                x <= 32,
                y < 32,
                ls@.map_values(|l: Vec<char>| l@) == sl,
                bg@ == background(),
                fg@ == foreground(),
                buf@.len() == y * 128 + x * 4,
                forall|px: int, py: int, b: int|
                    0 <= px < 32 && 0 <= py < y && 0 <= b < 4 ==> buf@[(py * 32 + px) * 4 + b]
                        == #[trigger] icon_byte(sl, px, py, b),
                forall|px: int, b: int|
                    0 <= px < x && 0 <= b < 4 ==> buf@[(y * 32 + px) * 4 + b] == #[trigger] icon_byte(
                        sl,
                        px,
                        y as int,
                        b,
                    ),
            decreases 32 - x,
        {
            let on = pixel_on(&ls, x, y);
            let col = if on {
                fg
            } else {
                bg
            };
            let ghost before = buf@;
            buf.push(col[0]);
            buf.push(col[1]);
            buf.push(col[2]);
            buf.push(col[3]);
            assert forall|px: int, py: int, b: int|
                0 <= px < 32 && 0 <= py < y && 0 <= b < 4 implies buf@[(py * 32 + px) * 4 + b]
                == #[trigger] icon_byte(sl, px, py, b) by {
                assert(buf@[(py * 32 + px) * 4 + b] == before[(py * 32 + px) * 4 + b]);
            }
            assert forall|px: int, b: int|
                0 <= px < x + 1 && 0 <= b < 4 implies buf@[(y * 32 + px) * 4 + b] == #[trigger] icon_byte(
                sl,
                px,
                y as int,
                b,
            ) by {
                if px < x {
                    assert(buf@[(y * 32 + px) * 4 + b] == before[(y * 32 + px) * 4 + b]);
                }
            }
            x = x + 1;
        }
        y = y + 1;
    }
    buf
}

} // verus!
