use vstd::prelude::*;

use crate::text::{
    chars_of, collapse_whitespace, collapse_ws, decimal, decimal_chars, extend_chars, string_of,
};

verus! {

/// Alt text with its whitespace collapsed.
pub fn alt_text(source: &str) -> (r: String)
    ensures
        r@ == collapse_ws(source@),
{
    let cs = chars_of(source);
    let c = collapse_whitespace(cs.as_slice());
    string_of(c.as_slice())
}

/// An image written as Markdown: `![alt](url)`, or `![alt](url "title")`.
pub open spec fn image_markdown_of(alt: Seq<char>, url: Seq<char>, title: Seq<char>) -> Seq<char> {
    if title.len() == 0 {
        seq!['!', '['] + alt + seq![']', '('] + url + seq![')']
    } else {
        seq!['!', '['] + alt + seq![']', '('] + url + seq![' ', '"'] + title + seq!['"', ')']
    }
}

pub fn markdown_text(alt: &str, url: &str, title: &str) -> (r: String)
    ensures
        r@ == image_markdown_of(alt@, url@, title@),
{
    let a = chars_of(alt);
    let u = chars_of(url);
    let t = chars_of(title);
    let mut out: Vec<char> = Vec::new();
    out.push('!');
    out.push('[');
    extend_chars(&mut out, a.as_slice());
    out.push(']');
    out.push('(');
    extend_chars(&mut out, u.as_slice());
    if t.len() == 0 {
        out.push(')');
        assert(out@ =~= image_markdown_of(alt@, url@, title@));
    } else {
        out.push(' ');
        out.push('"');
        extend_chars(&mut out, t.as_slice());
        out.push('"');
        out.push(')');
        assert(out@ =~= image_markdown_of(alt@, url@, title@));
    }
    string_of(out.as_slice())
}


/// The size of an image, in pixels.
#[derive(Debug, Clone, Copy, PartialEq, Eq, Structural)]
pub struct ImageDimensions {
    pub width: u32,
    pub height: u32,
}

impl ImageDimensions {
    /// The size as text: `<width> x <height> px`.
    pub fn label(self) -> (r: String)
        ensures
            r@ == decimal(self.width as nat) + seq![' ', 'x', ' '] + decimal(self.height as nat) + seq![' ', 'p', 'x'],
    {
        let mut out = decimal_chars(self.width as u64);
        out.push(' ');
        out.push('x');
        out.push(' ');
        let h = decimal_chars(self.height as u64);
        extend_chars(&mut out, h.as_slice());
        out.push(' ');
        out.push('p');
        out.push('x');
        let ghost w = decimal(self.width as nat);
        assert(out@ =~= w + seq![' ', 'x', ' '] + decimal(self.height as nat) + seq![' ', 'p', 'x']);
        string_of(out.as_slice())
    }
}

/// A big-endian 16-bit number at `i`.
pub open spec fn be16(b: Seq<u8>, i: int) -> nat {
    (b[i] * 256 + b[i + 1]) as nat
}

/// A little-endian 16-bit number at `i`.
pub open spec fn le16(b: Seq<u8>, i: int) -> nat {
    (b[i] + b[i + 1] * 256) as nat
}

/// A little-endian 24-bit number at `i`.
pub open spec fn le24(b: Seq<u8>, i: int) -> nat {
    (b[i] + b[i + 1] * 256 + b[i + 2] * 65536) as nat
}

/// A big-endian 32-bit number at `i`.
pub open spec fn be32(b: Seq<u8>, i: int) -> nat {
    (((b[i] * 256 + b[i + 1]) * 256 + b[i + 2]) * 256 + b[i + 3]) as nat
}

/// Whether `b` holds `pat` at `i`.
pub open spec fn bytes_at(b: Seq<u8>, i: int, pat: Seq<u8>) -> bool {
    0 <= i && i + pat.len() <= b.len() && b.subrange(i, i + pat.len()) == pat
}

/// The width and height in a PNG header.
pub open spec fn png_of(b: Seq<u8>) -> Option<(nat, nat)> {
    if b.len() >= 24 && bytes_at(b, 0, seq![0x89u8, 0x50, 0x4e, 0x47, 0x0d, 0x0a, 0x1a, 0x0a])
        && bytes_at(b, 12, seq![0x49u8, 0x48, 0x44, 0x52]) {
        Some((be32(b, 16), be32(b, 20)))
    } else {
        None
    }
}

/// The width and height in a GIF header.
pub open spec fn gif_of(b: Seq<u8>) -> Option<(nat, nat)> {
    if b.len() >= 10 && (bytes_at(b, 0, seq![0x47u8, 0x49, 0x46, 0x38, 0x37, 0x61])
        || bytes_at(b, 0, seq![0x47u8, 0x49, 0x46, 0x38, 0x39, 0x61])) {
        Some((le16(b, 6), le16(b, 8)))
    } else {
        None
    }
}

/// The first position at or after `i` that holds `0xff`, or the end.
pub open spec fn next_ff(b: Seq<u8>, i: int) -> int
    decreases b.len() - i,
{
    if i < b.len() && b[i] != 0xff {
        next_ff(b, i + 1)
    } else {
        i
    }
}

/// The first position at or after `i` that does not hold `0xff`, or the end.
pub open spec fn past_ff(b: Seq<u8>, i: int) -> int
    decreases b.len() - i,
{
    if i < b.len() && b[i] == 0xff {
        past_ff(b, i + 1)
    } else {
        i
    }
}

/// A JPEG start-of-frame marker, which holds the image size.
pub open spec fn is_sof_marker(m: u8) -> bool {
    m == 0xc0 || m == 0xc1 || m == 0xc2 || m == 0xc3 || m == 0xc5 || m == 0xc6 || m == 0xc7
        || m == 0xc9 || m == 0xca || m == 0xcb || m == 0xcd || m == 0xce || m == 0xcf
}

/// A JPEG marker that stands alone, with no segment after it.
pub open spec fn is_standalone_marker(m: u8) -> bool {
    m == 0x01 || (0xd0 <= m && m <= 0xd7)
}

pub proof fn lemma_scan_bounds(b: Seq<u8>, i: int)
    requires
        0 <= i <= b.len(),
    ensures
        i <= next_ff(b, i) <= b.len(),
        next_ff(b, i) <= past_ff(b, next_ff(b, i)) <= b.len(),
    decreases b.len() - i,
{
    if i < b.len() && b[i] != 0xff {
        lemma_scan_bounds(b, i + 1);
    } else {
        lemma_past_bounds(b, i);
    }
}

pub proof fn lemma_past_bounds(b: Seq<u8>, i: int)
    requires
        0 <= i <= b.len(),
    ensures
        i <= past_ff(b, i) <= b.len(),
    decreases b.len() - i,
{
    if i < b.len() && b[i] == 0xff {
        lemma_past_bounds(b, i + 1);
    }
}

/// Walking the JPEG segments from `cursor` to the first frame header.
pub open spec fn jpeg_scan(b: Seq<u8>, cursor: int) -> Option<(nat, nat)>
    decreases b.len() - cursor,
    when 0 <= cursor <= b.len()
{
    if !(cursor + 9 < b.len()) {
        None
    } else {
        let m_at = past_ff(b, next_ff(b, cursor));
        proof {
            lemma_scan_bounds(b, cursor);
        }
        if m_at >= b.len() {
            None
        } else {
            let marker = b[m_at];
            let c = m_at + 1;
            if marker == 0xd9 || marker == 0xda {
                None
            } else if is_standalone_marker(marker) {
                jpeg_scan(b, c)
            } else if c + 2 > b.len() {
                None
            } else {
                let seg = be16(b, c);
                if seg < 2 || c + seg > b.len() {
                    None
                } else if is_sof_marker(marker) {
                    if seg < 7 {
                        None
                    } else {
                        Some((be16(b, c + 5), be16(b, c + 3)))
                    }
                } else {
                    jpeg_scan(b, c + seg)
                }
            }
        }
    }
}

/// The width and height in a JPEG file's first frame header.
pub open spec fn jpeg_of(b: Seq<u8>) -> Option<(nat, nat)> {
    if b.len() < 4 || b[0] != 0xff || b[1] != 0xd8 {
        None
    } else {
        jpeg_scan(b, 2)
    }
}

/// The width and height in a WebP header: lossy, lossless or extended.
pub open spec fn webp_of(b: Seq<u8>) -> Option<(nat, nat)> {
    if b.len() < 30 || !bytes_at(b, 0, seq![0x52u8, 0x49, 0x46, 0x46])
        || !bytes_at(b, 8, seq![0x57u8, 0x45, 0x42, 0x50]) {
        None
    } else if bytes_at(b, 12, seq![0x56u8, 0x50, 0x38, 0x20]) {
        if bytes_at(b, 23, seq![0x9du8, 0x01, 0x2a]) {
            Some((le16(b, 26) % 16384, le16(b, 28) % 16384))
        } else {
            None
        }
    } else if bytes_at(b, 12, seq![0x56u8, 0x50, 0x38, 0x4c]) {
        if b[20] == 0x2f {
            Some((
                (1 + (b[22] % 64) * 256 + b[21]) as nat,
                (1 + (b[24] % 16) * 1024 + b[23] * 4 + b[22] / 64) as nat,
            ))
        } else {
            None
        }
    } else if bytes_at(b, 12, seq![0x56u8, 0x50, 0x38, 0x58]) {
        Some((1 + le24(b, 24), 1 + le24(b, 27)))
    } else {
        None
    }
}

/// The size in an image header: PNG, GIF, JPEG or WebP, tried in that order.
pub open spec fn dimensions_of(b: Seq<u8>) -> Option<(nat, nat)> {
    match png_of(b) {
        Some(d) => Some(d),
        None => match gif_of(b) {
            Some(d) => Some(d),
            None => match jpeg_of(b) {
                Some(d) => Some(d),
                None => webp_of(b),
            },
        },
    }
}

fn matches_bytes(b: &[u8], i: usize, pat: &[u8]) -> (r: bool)
    ensures
        r == bytes_at(b@, i as int, pat@),
{
    if i > b.len() || pat.len() > b.len() - i {
        return false;
    }
    let n = b.len();
    let mut k: usize = 0;
    while k < pat.len()
        invariant
            k <= pat@.len(),
            n == b@.len(),
            i + pat@.len() <= b@.len(),
            forall|j: int| 0 <= j < k ==> b@[i + j] == pat@[j],
        decreases pat@.len() - k,
    {
        if b[i + k] != pat[k] {
            assert(b@.subrange(i as int, i + pat@.len())[k as int] != pat@[k as int]);
            return false;
        }
        k = k + 1;
    }
    assert(b@.subrange(i as int, i + pat@.len()) =~= pat@);
    true
}

fn read_be16(b: &[u8], i: usize) -> (r: u32)
    requires
        i + 2 <= b@.len(),
    ensures
        r == be16(b@, i as int),
{
    (b[i] as u32) * 256 + (b[i + 1] as u32)
}

fn read_le16(b: &[u8], i: usize) -> (r: u32)
    requires
        i + 2 <= b@.len(),
    ensures
        r == le16(b@, i as int),
{
    (b[i] as u32) + (b[i + 1] as u32) * 256
}

fn png_dimensions(b: &[u8]) -> (r: Option<ImageDimensions>)
    ensures
        match png_of(b@) {
            Some((w, h)) => r == Some(ImageDimensions { width: w as u32, height: h as u32 }) && w <= u32::MAX && h <= u32::MAX,
            None => r is None,
        },
{
    if b.len() < 24 || !matches_bytes(b, 0, &[0x89u8, 0x50, 0x4e, 0x47, 0x0d, 0x0a, 0x1a, 0x0a])
        || !matches_bytes(b, 12, &[0x49u8, 0x48, 0x44, 0x52]) {
        return None;
    }
    let width = ((b[16] as u32 * 256 + b[17] as u32) * 256 + b[18] as u32) * 256 + b[19] as u32;
    let height = ((b[20] as u32 * 256 + b[21] as u32) * 256 + b[22] as u32) * 256 + b[23] as u32;
    Some(ImageDimensions { width, height })
}

fn gif_dimensions(b: &[u8]) -> (r: Option<ImageDimensions>)
    ensures
        match gif_of(b@) {
            Some((w, h)) => r == Some(ImageDimensions { width: w as u32, height: h as u32 }) && w <= u32::MAX && h <= u32::MAX,
            None => r is None,
        },
{
    if b.len() < 10 || !(matches_bytes(b, 0, &[0x47u8, 0x49, 0x46, 0x38, 0x37, 0x61])
        || matches_bytes(b, 0, &[0x47u8, 0x49, 0x46, 0x38, 0x39, 0x61])) {
        return None;
    }
    Some(ImageDimensions { width: read_le16(b, 6), height: read_le16(b, 8) })
}

fn jpeg_dimensions(b: &[u8]) -> (r: Option<ImageDimensions>)
    ensures
        match jpeg_of(b@) {
            Some((w, h)) => r == Some(ImageDimensions { width: w as u32, height: h as u32 }) && w <= u32::MAX && h <= u32::MAX,
            None => r is None,
        },
{
    let len = b.len();
    if len < 4 || b[0] != 0xff || b[1] != 0xd8 {
        return None;
    }
    let mut cursor: usize = 2;
    while cursor < len && len - cursor > 9
        invariant
            2 <= cursor <= len,
            len == b@.len(),
            jpeg_of(b@) == jpeg_scan(b@, cursor as int),
        decreases len - cursor,
    {
        let ghost start = cursor as int;
        proof {
            lemma_scan_bounds(b@, start);
        }
        while cursor < len && b[cursor] != 0xff
            invariant
                start <= cursor <= len,
                len == b@.len(),
                next_ff(b@, start) == next_ff(b@, cursor as int),
            decreases len - cursor,
        {
            cursor = cursor + 1;
        }
        let ghost mid = cursor as int;
        while cursor < len && b[cursor] == 0xff
            invariant
                mid <= cursor <= len,
                len == b@.len(),
                mid == next_ff(b@, start),
                past_ff(b@, mid) == past_ff(b@, cursor as int),
            decreases len - cursor,
        {
            cursor = cursor + 1;
        }
        if cursor >= len {
            return None;
        }
        let marker = b[cursor];
        cursor = cursor + 1;
        if marker == 0xd9 || marker == 0xda {
            return None;
        }
        if marker == 0x01 || (0xd0 <= marker && marker <= 0xd7) {
            continue;
        }
        if cursor > len || len - cursor < 2 {
            return None;
        }
        let seg = read_be16(b, cursor) as usize;
        if seg < 2 || seg > len - cursor {
            return None;
        }
        if marker == 0xc0 || marker == 0xc1 || marker == 0xc2 || marker == 0xc3 || marker == 0xc5
            || marker == 0xc6 || marker == 0xc7 || marker == 0xc9 || marker == 0xca || marker == 0xcb
            || marker == 0xcd || marker == 0xce || marker == 0xcf {
            if seg < 7 {
                return None;
            }
            let height = read_be16(b, cursor + 3);
            let width = read_be16(b, cursor + 5);
            return Some(ImageDimensions { width, height });
        }
        cursor = cursor + seg;
    }
    None
}

fn webp_dimensions(b: &[u8]) -> (r: Option<ImageDimensions>)
    ensures
        match webp_of(b@) {
            Some((w, h)) => r == Some(ImageDimensions { width: w as u32, height: h as u32 }) && w <= u32::MAX && h <= u32::MAX,
            None => r is None,
        },
{
    if b.len() < 30 || !matches_bytes(b, 0, &[0x52u8, 0x49, 0x46, 0x46])
        || !matches_bytes(b, 8, &[0x57u8, 0x45, 0x42, 0x50]) {
        return None;
    }
    if matches_bytes(b, 12, &[0x56u8, 0x50, 0x38, 0x20]) {
        if matches_bytes(b, 23, &[0x9du8, 0x01, 0x2a]) {
            return Some(ImageDimensions { width: read_le16(b, 26) % 16384, height: read_le16(b, 28) % 16384 });
        }
        return None;
    }
    if matches_bytes(b, 12, &[0x56u8, 0x50, 0x38, 0x4c]) {
        if b[20] == 0x2f {
            let b1 = b[21] as u32;
            let b2 = b[22] as u32;
            let b3 = b[23] as u32;
            let b4 = b[24] as u32;
            return Some(ImageDimensions {
                width: 1 + (b2 % 64) * 256 + b1,
                height: 1 + (b4 % 16) * 1024 + b3 * 4 + b2 / 64,
            });
        }
        return None;
    }
    if matches_bytes(b, 12, &[0x56u8, 0x50, 0x38, 0x58]) {
        let width = 1 + (b[24] as u32 + b[25] as u32 * 256 + b[26] as u32 * 65536);
        let height = 1 + (b[27] as u32 + b[28] as u32 * 256 + b[29] as u32 * 65536);
        return Some(ImageDimensions { width, height });
    }
    None
}

/// The size of an image from the start of its file: PNG, GIF, JPEG and
/// WebP headers are read; anything else gives nothing.
pub fn dimensions_from_bytes(bytes: &[u8]) -> (r: Option<ImageDimensions>)
    ensures
        match dimensions_of(bytes@) {
            Some((w, h)) => r == Some(ImageDimensions { width: w as u32, height: h as u32 }),
            None => r is None,
        },
{
    match png_dimensions(bytes) {
        Some(d) => return Some(d),
        None => {},
    }
    match gif_dimensions(bytes) {
        Some(d) => return Some(d),
        None => {},
    }
    match jpeg_dimensions(bytes) {
        Some(d) => return Some(d),
        None => {},
    }
    webp_dimensions(bytes)
}

} // verus!
