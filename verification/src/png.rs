//! Minimal PNG decoder for colour emoji bitmaps: 8-bit depth, colour types
//! gray / RGB / palette / gray-alpha / RGBA, non-interlaced, filters 0–4.

use vstd::arithmetic::div_mod::*;
use vstd::prelude::*;

use crate::inflate::{inflate, inflate_spec};

verus! {

/// The Paeth predictor of PNG filter type 4, on integers.
pub open spec fn paeth_spec(a: int, b: int, c: int) -> int {
    let p = a + b - c;
    let pa = if p >= a { p - a } else { a - p };
    let pb = if p >= b { p - b } else { b - p };
    let pc = if p >= c { p - c } else { c - p };
    if pa <= pb && pa <= pc {
        a
    } else if pb <= pc {
        b
    } else {
        c
    }
}

fn abs16(x: i16) -> (r: i16)
    requires
        x > i16::MIN,
    ensures
        r == (if x >= 0 { x as int } else { -x }),
{
    if x >= 0 {
        x
    } else {
        -x
    }
}

/// Paeth predictor: whichever of left, above and upper-left is closest to
/// `left + above - upleft`, ties going to left, then above.
pub fn paeth(a: u8, b: u8, c: u8) -> (r: u8)
    ensures
        r as int == paeth_spec(a as int, b as int, c as int),
{
    let (a, b, c) = (a as i16, b as i16, c as i16);
    let p = a + b - c;
    let (pa, pb, pc) = (abs16(p - a), abs16(p - b), abs16(p - c));
    if pa <= pb && pa <= pc {
        a as u8
    } else if pb <= pc {
        b as u8
    } else {
        c as u8
    }
}


/// A decoded image: straight (non-premultiplied) RGBA8, row by row.
pub struct Image {
    pub width: u32,
    pub height: u32,
    pub rgba: Vec<u8>,
}

/// What the chunks of a PNG file say.
pub struct PngInfo {
    pub width: u32,
    pub height: u32,
    pub color_type: u8,
    pub palette: Seq<(u8, u8, u8)>,
    pub trns: Seq<u8>,
    pub idat: Seq<u8>,
}

/// The big-endian 32-bit number at `i`.
pub open spec fn be32(d: Seq<u8>, i: int) -> nat {
    d[i] as nat * 0x100_0000 + d[i + 1] as nat * 0x1_0000 + d[i + 2] as nat * 0x100 + d[i + 3] as nat
}

/// A PLTE body as RGB triples; a trailing partial triple is ignored.
pub open spec fn palette_of(body: Seq<u8>) -> Seq<(u8, u8, u8)> {
    Seq::new(body.len() / 3, |i: int| (body[3 * i], body[3 * i + 1], body[3 * i + 2]))
}

pub open spec fn png_signature(d: Seq<u8>) -> bool {
    &&& d.len() >= 8
    &&& d[0] == 0x89u8 && d[1] == 0x50u8 && d[2] == 0x4Eu8 && d[3] == 0x47u8
    &&& d[4] == 0x0Du8 && d[5] == 0x0Au8 && d[6] == 0x1Au8 && d[7] == 0x0Au8
}

/// The chunks from `pos` on, each a length, a type, a body and a CRC (not
/// checked): IHDR (8-bit depth, no interlace), PLTE, tRNS and IDAT are kept;
/// IEND, or too little data for another chunk header, ends the list; a body
/// running past the end fails.
#[verifier::opaque]
pub open spec fn chunks(data: Seq<u8>, pos: int, info: PngInfo) -> Option<PngInfo>
    decreases data.len() + 4 - pos,
{
    if pos < 0 || pos + 8 > data.len() {
        Some(info)
    } else {
        let len = be32(data, pos);
        if pos + 8 + len > data.len() {
            None
        } else {
            let body = data.subrange(pos + 8, pos + 8 + len);
            let t = data.subrange(pos + 4, pos + 8);
            let next = pos + 12 + len;
            if t == seq![73u8, 72u8, 68u8, 82u8] {
                if body.len() < 10 || body[8] != 8 || body.len() < 13 || body[12] != 0 {
                    None
                } else {
                    chunks(data, next, PngInfo {
                        width: be32(body, 0) as u32,
                        height: be32(body, 4) as u32,
                        color_type: body[9],
                        ..info
                    })
                }
            } else if t == seq![80u8, 76u8, 84u8, 69u8] {
                chunks(data, next, PngInfo { palette: palette_of(body), ..info })
            } else if t == seq![116u8, 82u8, 78u8, 83u8] {
                chunks(data, next, PngInfo { trns: body, ..info })
            } else if t == seq![73u8, 68u8, 65u8, 84u8] {
                chunks(data, next, PngInfo { idat: info.idat + body, ..info })
            } else if t == seq![73u8, 69u8, 78u8, 68u8] {
                Some(info)
            } else {
                chunks(data, next, info)
            }
        }
    }
}

/// Bytes per pixel of a colour type; 0 for the unsupported ones.
pub open spec fn channels_of(color_type: u8) -> nat {
    if color_type == 0 {
        1
    } else if color_type == 2 {
        3
    } else if color_type == 3 {
        1
    } else if color_type == 4 {
        2
    } else if color_type == 6 {
        4
    } else {
        0
    }
}

pub proof fn lemma_div_parts(i: int, m: int)
    requires
        i >= 0,
        m > 0,
    ensures
        i == m * (i / m) + i % m,
        0 <= i % m < m,
        i / m >= 0,
        i % m <= i,
        i / m > 0 ==> i >= m + i % m,
{
    lemma_fundamental_div_mod(i, m);
    lemma_mod_pos_bound(i, m);
    lemma_div_pos_is_pos(i, m);
    if i / m > 0 {
        assert(m * (i / m) >= m) by (nonlinear_arith)
            requires i / m >= 1, m > 0;
    }
    assert(m * (i / m) >= 0) by (nonlinear_arith)
        requires i / m >= 0, m > 0;
}

/// The reconstructed byte `i` of the image (row `i / stride`, column
/// `i % stride`), undoing the row's filter against the bytes to its left,
/// above and above-left (0 outside the image).
#[verifier::opaque]
pub open spec fn recon(raw: Seq<u8>, stride: nat, ch: nat, i: nat) -> u8
    decreases i,
{
    if stride == 0 || ch == 0 {
        0
    } else {
        let y = i / stride;
        let x = i % stride;
        proof {
            lemma_div_parts(i as int, stride as int);
        }
        let filter = raw[(y * (stride + 1)) as int];
        let v = raw[(y * (stride + 1) + 1 + x) as int];
        let left = if x >= ch { recon(raw, stride, ch, (i - ch) as nat) } else { 0u8 };
        let above = if y > 0 { recon(raw, stride, ch, (i - stride) as nat) } else { 0u8 };
        let upleft = if y > 0 && x >= ch { recon(raw, stride, ch, (i - stride - ch) as nat) } else { 0u8 };
        if filter == 0 {
            v
        } else if filter == 1 {
            v.wrapping_add(left)
        } else if filter == 2 {
            v.wrapping_add(above)
        } else if filter == 3 {
            v.wrapping_add(((left as int + above as int) / 2) as u8)
        } else {
            v.wrapping_add(paeth_spec(left as int, above as int, upleft as int) as u8)
        }
    }
}

/// Pixel `p` as RGBA: gray is replicated, palette entries out of range are
/// black, missing tRNS entries opaque.
pub open spec fn pixel_rgba(raw: Seq<u8>, stride: nat, info: PngInfo, p: int) -> Seq<u8> {
    let ch = channels_of(info.color_type);
    let px = |k: int| recon(raw, stride, ch, (p * ch + k) as nat);
    let ct = info.color_type;
    if ct == 0 {
        seq![px(0), px(0), px(0), 255u8]
    } else if ct == 2 {
        seq![px(0), px(1), px(2), 255u8]
    } else if ct == 3 {
        let idx = px(0) as int;
        let rgb = if idx < info.palette.len() { info.palette[idx] } else { (0u8, 0u8, 0u8) };
        let a = if idx < info.trns.len() { info.trns[idx] } else { 255u8 };
        seq![rgb.0, rgb.1, rgb.2, a]
    } else if ct == 4 {
        seq![px(0), px(0), px(0), px(1)]
    } else {
        seq![px(0), px(1), px(2), px(3)]
    }
}

/// The first `n` pixels as RGBA.
pub open spec fn rgba_of(raw: Seq<u8>, stride: nat, info: PngInfo, n: nat) -> Seq<u8>
    decreases n,
{
    if n == 0 {
        seq![]
    } else {
        rgba_of(raw, stride, info, (n - 1) as nat) + pixel_rgba(raw, stride, info, n - 1)
    }
}

/// The image the chunks describe: width, height and RGBA8 pixels; `None` for
/// sides outside 1 to 4096, an unsupported colour type, bad compressed data,
/// too few pixel bytes, or a filter type above 4.
pub open spec fn pixels_spec(info: PngInfo) -> Option<(u32, u32, Seq<u8>)> {
    let w = info.width as nat;
    let h = info.height as nat;
    let ch = channels_of(info.color_type);
    if w == 0 || h == 0 || w > 4096 || h > 4096 || ch == 0 {
        None
    } else {
        let stride = w * ch;
        match inflate_spec(info.idat) {
            None => None,
            Some(raw) => if raw.len() < (stride + 1) * h {
                None
            } else if exists|y: int| 0 <= y < h && #[trigger] raw[y * (stride + 1)] > 4 {
                None
            } else {
                Some((info.width, info.height, rgba_of(raw, stride, info, w * h)))
            },
        }
    }
}

/// The chunks of a file before any of them is read.
pub open spec fn no_info() -> PngInfo {
    PngInfo { width: 0, height: 0, color_type: 0, palette: seq![], trns: seq![], idat: seq![] }
}

/// A decoded PNG: the signature, the chunks, then the image they describe.
pub open spec fn decode_spec(data: Seq<u8>) -> Option<(u32, u32, Seq<u8>)> {
    if !png_signature(data) {
        None
    } else {
        match chunks(data, 8, no_info()) {
            None => None,
            Some(info) => pixels_spec(info),
        }
    }
}

fn be32_at(d: &[u8], i: usize) -> (r: u32)
    requires
        i + 4 <= d@.len(),
    ensures
        r == be32(d@, i as int),
{
    d[i] as u32 * 0x100_0000 + d[i + 1] as u32 * 0x1_0000 + d[i + 2] as u32 * 0x100 + d[i + 3] as u32
}

/// Decode a PNG in scope: 8-bit depth, colour types gray, RGB, palette,
/// gray-alpha and RGBA, no interlacing.
pub fn decode(data: &[u8]) -> (r: Option<Image>)
    requires
        data@.len() <= isize::MAX,
    ensures
        match decode_spec(data@) {
            Some((w, h, px)) => r matches Some(img) && img.width == w && img.height == h && img.rgba@ == px,
            None => r is None,
        },
{
    if data.len() < 8 || data[0] != 0x89 || data[1] != 0x50 || data[2] != 0x4E || data[3] != 0x47
        || data[4] != 0x0D || data[5] != 0x0A || data[6] != 0x1A || data[7] != 0x0A {
        return None;
    }
    let mut pos: usize = 8;
    let mut width: u32 = 0;
    let mut height: u32 = 0;
    let mut color_type: u8 = 0;
    let mut palette: Vec<(u8, u8, u8)> = Vec::new();
    let mut trns: Vec<u8> = Vec::new();
    let mut idat: Vec<u8> = Vec::new();
    let ghost start = no_info();
    let ghost d = data@;
    loop
        invariant
            d == data@,
            start == no_info(),
            d.len() <= isize::MAX,
            8 <= pos <= d.len() + 4,
            chunks(d, 8, start) == chunks(d, pos as int, PngInfo {
                width, height, color_type, palette: palette@, trns: trns@, idat: idat@,
            }),
        ensures
            chunks(d, 8, start) == Some(PngInfo {
                width, height, color_type, palette: palette@, trns: trns@, idat: idat@,
            }),
        decreases d.len() + 4 - pos,
    {
        let ghost cur = PngInfo { width, height, color_type, palette: palette@, trns: trns@, idat: idat@ };
        if pos + 8 > data.len() {
            assert(chunks(d, pos as int, cur) == Some(cur)) by {
                reveal(chunks);
            }
            break;
        }
        let len = be32_at(data, pos) as usize;
        if len > data.len() - pos - 8 {
            assert(chunks(d, pos as int, cur) is None) by {
                reveal(chunks);
            }
            assert(chunks(d, 8, no_info()) is None);
            assert(decode_spec(d) is None);
            return None;
        }
        let b0 = pos + 8;
        let b1 = b0 + len;
        let ghost body = d.subrange(b0 as int, b1 as int);
        let ghost t = d.subrange(pos + 4, pos + 8);
        let next = pos + 12 + len;
        let (t0, t1, t2, t3) = (data[pos + 4], data[pos + 5], data[pos + 6], data[pos + 7]);
        proof {
            assert(t =~= seq![t0, t1, t2, t3]);
        }
        if t0 == 73 && t1 == 72 && t2 == 68 && t3 == 82 {
            if len < 10 {
                assert(chunks(d, pos as int, cur) is None) by {
                    reveal(chunks);
                }
                return None;
            }
            let w = be32_at(data, b0);
            let h = be32_at(data, b0 + 4);
            let depth = data[b0 + 8];
            let ct = data[b0 + 9];
            if depth != 8 || len < 13 || data[b0 + 12] != 0 {
                assert(chunks(d, pos as int, cur) is None) by {
                    reveal(chunks);
                }
                return None;
            }
            proof {
                assert(be32(body, 0) == be32(d, b0 as int));
                assert(be32(body, 4) == be32(d, b0 + 4));
                assert(chunks(d, pos as int, cur) == chunks(d, next as int, PngInfo { width: w, height: h, color_type: ct, ..cur })) by {
                    reveal(chunks);
                }
            }
            width = w;
            height = h;
            color_type = ct;
        } else if t0 == 80 && t1 == 76 && t2 == 84 && t3 == 69 {
            let mut pal: Vec<(u8, u8, u8)> = Vec::new();
            let mut k: usize = 0;
            while k + 3 <= len
                invariant
                    d == data@,
                    b1 == b0 + len,
                    b1 <= d.len(),
                    d.len() <= isize::MAX,
                    body == d.subrange(b0 as int, b1 as int),
                    k % 3 == 0,
                    k <= len,
                    pal@ =~= palette_of(body).take((k / 3) as int),
                decreases len - k,
            {
                pal.push((data[b0 + k], data[b0 + k + 1], data[b0 + k + 2]));
                proof {
                    assert((k + 3) / 3 == k / 3 + 1) by (nonlinear_arith)
                        requires k % 3 == 0;
                    assert(3 * (k / 3) == k) by (nonlinear_arith)
                        requires k % 3 == 0;
                    assert(pal@ =~= palette_of(body).take(((k + 3) / 3) as int));
                }
                k = k + 3;
            }
            proof {
                assert(k / 3 == len / 3) by (nonlinear_arith)
                    requires k % 3 == 0, k <= len, k + 3 > len;
                assert(pal@ =~= palette_of(body));
                assert(chunks(d, pos as int, cur) == chunks(d, next as int, PngInfo { palette: palette_of(body), ..cur })) by {
                    reveal(chunks);
                }
            }
            palette = pal;
        } else if t0 == 116 && t1 == 82 && t2 == 78 && t3 == 83 {
            let v = vstd::slice::slice_to_vec(vstd::slice::slice_subrange(data, b0, b1));
            assert(chunks(d, pos as int, cur) == chunks(d, next as int, PngInfo { trns: body, ..cur })) by {
                reveal(chunks);
            }
            trns = v;
        } else if t0 == 73 && t1 == 68 && t2 == 65 && t3 == 84 {
            let ghost i0 = idat@;
            let mut k: usize = b0;
            while k < b1
                invariant
                    d == data@,
                    b0 <= k <= b1,
                    b1 <= d.len(),
                    idat@ =~= i0 + d.subrange(b0 as int, k as int),
                decreases b1 - k,
            {
                idat.push(data[k]);
                k = k + 1;
            }
            assert(chunks(d, pos as int, cur) == chunks(d, next as int, PngInfo { idat: i0 + body, ..cur })) by {
                reveal(chunks);
            }
        } else if t0 == 73 && t1 == 69 && t2 == 78 && t3 == 68 {
            assert(chunks(d, pos as int, cur) == Some(cur)) by {
                reveal(chunks);
            }
            break;
        } else {
            assert(chunks(d, pos as int, cur) == chunks(d, next as int, cur)) by {
                reveal(chunks);
            }
        }
        pos = next;
    }
    decode_pixels(width, height, color_type, &palette, &trns, &idat)
}


/// Undo the filters, then expand to RGBA8.
fn decode_pixels(
    width: u32,
    height: u32,
    color_type: u8,
    palette: &Vec<(u8, u8, u8)>,
    trns: &Vec<u8>,
    idat: &Vec<u8>,
) -> (r: Option<Image>)
    ensures
        match pixels_spec(PngInfo { width, height, color_type, palette: palette@, trns: trns@, idat: idat@ }) {
            Some((w, h, px)) => r matches Some(img) && img.width == w && img.height == h && img.rgba@ == px,
            None => r is None,
        },
{
    let ghost info = PngInfo { width, height, color_type, palette: palette@, trns: trns@, idat: idat@ };
    if width == 0 || height == 0 || width > 4096 || height > 4096 {
        return None;
    }
    let channels: usize = if color_type == 0 {
        1
    } else if color_type == 2 {
        3
    } else if color_type == 3 {
        1
    } else if color_type == 4 {
        2
    } else if color_type == 6 {
        4
    } else {
        return None;
    };
    assert(1 <= width * channels <= 16384) by (nonlinear_arith)
        requires 1 <= width <= 4096, 1 <= channels <= 4;
    let stride = width as usize * channels;
    let h = height as usize;
    proof {
        assert(stride <= 16384 && (stride + 1) * h <= 16385 * 4096) by (nonlinear_arith)
            requires stride == width * channels, width <= 4096, channels <= 4, h <= 4096, h >= 1;
    }
    let need = (stride + 1) * h;
    proof {
        assert(width * h <= 4096 * 4096) by (nonlinear_arith)
            requires width <= 4096, h <= 4096;
        assert(stride * h <= 16384 * 4096) by (nonlinear_arith)
            requires stride <= 16384, h <= 4096;
    }
    let raw = match inflate(idat.as_slice(), need) {
        Some(r) => r,
        None => return None,
    };
    if raw.len() < need {
        return None;
    }
    let ghost ch = channels as nat;
    let ghost rs = raw@;
    assert(inflate_spec(info.idat) == Some(rs));
    assert(stride * h <= need) by (nonlinear_arith)
        requires need == (stride + 1) * h;
    let mut lines: Vec<u8> = vec![0u8; stride * h];
    let mut y: usize = 0;
    while y < h
        invariant
            rs == raw@,
            inflate_spec(info.idat) == Some(rs),
            info == (PngInfo { width, height, color_type, palette: palette@, trns: trns@, idat: idat@ }),
            1 <= channels <= 4,
            ch == channels,
            channels == channels_of(color_type),
            stride == width * channels,
            1 <= stride <= 16384,
            h == height,
            1 <= h <= 4096,
            need == (stride + 1) * h,
            need <= 16385 * 4096,
            stride * h <= 16384 * 4096,
            raw@.len() >= need,
            y <= h,
            lines@.len() == stride * h,
            forall|j: int| 0 <= j < y * stride ==> #[trigger] lines@[j] == recon(rs, stride as nat, ch, j as nat),
            forall|t: int| 0 <= t < y ==> #[trigger] rs[t * (stride + 1)] <= 4,
        decreases h - y,
    {
        proof {
            assert((y + 1) * (stride + 1) <= need) by (nonlinear_arith)
                requires need == (stride + 1) * h, y < h;
            assert((y + 1) * stride <= stride * h) by (nonlinear_arith)
                requires y < h;
            assert(y * (stride + 1) + stride < (y + 1) * (stride + 1)) by (nonlinear_arith);
            assert(y * stride + stride == (y + 1) * stride) by (nonlinear_arith);
        }
        let row = y * (stride + 1);
        let filter = raw[row];
        if filter > 4 {
            proof {
                let sw = (width as nat) * channels_of(color_type);
                assert(sw == stride);
                assert(rs[y * (sw + 1)] > 4);
                assert(exists|t: int| 0 <= t < height && #[trigger] rs[t * (sw + 1)] > 4);
                assert(!(rs.len() < (sw + 1) * height));
                assert(pixels_spec(info) is None);
            }
            return None;
        }
        let mut x: usize = 0;
        while x < stride
            invariant
                rs == raw@,
                1 <= channels <= 4,
                ch == channels,
                1 <= stride <= 16384,
                y < h,
                row == y * (stride + 1),
                row + stride < raw@.len(),
                row + stride < need,
                need <= 16385 * 4096,
                filter == rs[row as int],
                stride * h <= 16384 * 4096,
                (y + 1) * stride <= stride * h,
                y * stride + stride == (y + 1) * stride,
                x <= stride,
                lines@.len() == stride * h,
                forall|j: int| 0 <= j < y * stride + x ==> #[trigger] lines@[j] == recon(rs, stride as nat, ch, j as nat),
            decreases stride - x,
        {
            proof {
                assert(y * stride + x < stride * h) by (nonlinear_arith)
                    requires (y + 1) * stride <= stride * h, y * stride + stride == (y + 1) * stride, x < stride;
                assert(y > 0 ==> y * stride >= stride) by (nonlinear_arith)
                    requires stride >= 1;
            }
            let i = y * stride + x;
            let above = if y > 0 {
                lines[i - stride]
            } else {
                0
            };
            let left = if x >= channels {
                lines[i - channels]
            } else {
                0
            };
            let upleft = if y > 0 && x >= channels {
                lines[i - stride - channels]
            } else {
                0
            };
            let v = raw[row + 1 + x];
            let val = if filter == 0 {
                v
            } else if filter == 1 {
                v.wrapping_add(left)
            } else if filter == 2 {
                v.wrapping_add(above)
            } else if filter == 3 {
                v.wrapping_add(((left as u16 + above as u16) / 2) as u8)
            } else {
                v.wrapping_add(paeth(left, above, upleft))
            };
            proof {
                lemma_fundamental_div_mod_converse(i as int, stride as int, y as int, x as int);
                assert(recon(rs, stride as nat, ch, i as nat) == val) by {
                    reveal(recon);
                }
            }
            lines.set(i, val);
            x = x + 1;
        }
        y = y + 1;
    }
    proof {
        assert(y * stride == stride * h) by (nonlinear_arith)
            requires y == h;
    }
    let n = width as usize * h;
    proof {
        assert(n * channels == stride * h && n <= 4096 * 4096) by (nonlinear_arith)
            requires n == width * h, stride == width * channels, width <= 4096, h <= 4096;
    }
    let mut rgba: Vec<u8> = Vec::with_capacity(n * 4);
    let mut p: usize = 0;
    while p < n
        invariant
            rs == raw@,
            1 <= channels <= 4,
            ch == channels,
            ch == channels_of(color_type),
            stride == width * channels,
            n * channels == stride * h,
            stride * h <= 16384 * 4096,
            lines@.len() == stride * h,
            forall|j: int| 0 <= j < stride * h ==> #[trigger] lines@[j] == recon(rs, stride as nat, ch, j as nat),
            palette@ == info.palette,
            trns@ == info.trns,
            color_type == info.color_type,
            p <= n,
            rgba@ == rgba_of(rs, stride as nat, info, p as nat),
        decreases n - p,
    {
        proof {
            assert(p * channels + channels <= n * channels) by (nonlinear_arith)
                requires p < n;
        }
        let base = p * channels;
        let ghost before = rgba@;
        if color_type == 0 {
            let g = lines[base];
            rgba.push(g);
            rgba.push(g);
            rgba.push(g);
            rgba.push(255);
        } else if color_type == 2 {
            rgba.push(lines[base]);
            rgba.push(lines[base + 1]);
            rgba.push(lines[base + 2]);
            rgba.push(255);
        } else if color_type == 3 {
            let idx = lines[base] as usize;
            let (r, g, b) = if idx < palette.len() {
                palette[idx]
            } else {
                (0, 0, 0)
            };
            let a = if idx < trns.len() {
                trns[idx]
            } else {
                255
            };
            rgba.push(r);
            rgba.push(g);
            rgba.push(b);
            rgba.push(a);
        } else if color_type == 4 {
            let g = lines[base];
            rgba.push(g);
            rgba.push(g);
            rgba.push(g);
            rgba.push(lines[base + 1]);
        } else {
            rgba.push(lines[base]);
            rgba.push(lines[base + 1]);
            rgba.push(lines[base + 2]);
            rgba.push(lines[base + 3]);
        }
        proof {
            assert(rgba@ =~= before + pixel_rgba(rs, stride as nat, info, p as int));
            assert(rgba_of(rs, stride as nat, info, (p + 1) as nat) == rgba_of(rs, stride as nat, info, p as nat) + pixel_rgba(rs, stride as nat, info, p as int));
        }
        p = p + 1;
    }
    Some(Image { width, height, rgba })
}

} // verus!
