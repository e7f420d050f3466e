use vstd::prelude::*;
use crate::image_data::ImageFormat;

verus! {

/// Big-endian value of two bytes.
pub open spec fn be16(a: u8, b: u8) -> u32 {
    ((a as int) * 256 + (b as int)) as u32
}

/// Little-endian value of two bytes.
pub open spec fn le16(a: u8, b: u8) -> u32 {
    ((b as int) * 256 + (a as int)) as u32
}

/// Big-endian value of four bytes.
pub open spec fn be32(a: u8, b: u8, c: u8, d: u8) -> u32 {
    ((a as int) * 16777216 + (b as int) * 65536 + (c as int) * 256 + (d as int)) as u32
}

/// Little-endian value of four bytes.
pub open spec fn le32(a: u8, b: u8, c: u8, d: u8) -> u32 {
    be32(d, c, b, a)
}

/// Little-endian value of three bytes.
pub open spec fn le24(a: u8, b: u8, c: u8) -> u32 {
    ((c as int) * 65536 + (b as int) * 256 + (a as int)) as u32
}

/// The eight-byte PNG signature.
pub open spec fn png_signature() -> Seq<u8> {
    seq![0x89u8, 0x50u8, 0x4Eu8, 0x47u8, 0x0Du8, 0x0Au8, 0x1Au8, 0x0Au8]
}

/// Width and height read from a PNG header (IHDR right after the signature).
pub open spec fn png_dimensions(d: Seq<u8>) -> Option<(u32, u32)> {
    if d.len() < 24 || d.subrange(0, 8) != png_signature() {
        None
    } else {
        Some((be32(d[16], d[17], d[18], d[19]), be32(d[20], d[21], d[22], d[23])))
    }
}

/// A JPEG start-of-frame marker (C0..CF except DHT, JPG and DAC).
pub open spec fn is_sof_marker(m: u8) -> bool {
    0xC0 <= m <= 0xCF && m != 0xC4 && m != 0xC8 && m != 0xCC
}

/// Walks the JPEG segments from `pos` until a start-of-frame segment is met.
pub open spec fn jpeg_scan(d: Seq<u8>, pos: int) -> Option<(u32, u32)>
    decreases d.len() - pos,
{
    if !(0 <= pos && pos < d.len() - 9) {
        None
    } else if d[pos] != 0xFF {
        None
    } else {
        let m = d[pos + 1];
        let p = pos + 2;
        if is_sof_marker(m) {
            Some((be16(d[p + 5], d[p + 6]), be16(d[p + 3], d[p + 4])))
        } else {
            let next = p + be16(d[p], d[p + 1]) as int;
            if next < d.len() - 9 {
                jpeg_scan(d, next)
            } else {
                None
            }
        }
    }
}

/// Width and height of a JPEG image: the first start-of-frame segment.
pub open spec fn jpeg_dimensions(d: Seq<u8>) -> Option<(u32, u32)> {
    if d.len() < 2 || d[0] != 0xFF || d[1] != 0xD8 {
        None
    } else {
        jpeg_scan(d, 2)
    }
}

/// A JPEG header with the SOI marker but fewer than nine bytes makes the
/// scan's bound `len - 9` underflow.
pub open spec fn jpeg_underflows(d: Seq<u8>) -> bool {
    d.len() >= 2 && d[0] == 0xFF && d[1] == 0xD8 && d.len() < 9
}

/// Width and height of a GIF image (logical screen descriptor).
pub open spec fn gif_dimensions(d: Seq<u8>) -> Option<(u32, u32)> {
    if d.len() < 10 || d.subrange(0, 3) != seq!['G' as u8, 'I' as u8, 'F' as u8] {
        None
    } else {
        Some((le16(d[6], d[7]), le16(d[8], d[9])))
    }
}

/// Four ASCII bytes.
pub open spec fn tag4(a: char, b: char, c: char, e: char) -> Seq<u8> {
    seq![a as u8, b as u8, c as u8, e as u8]
}

/// Width and height of a WebP image (lossy, lossless or extended).
pub open spec fn webp_dimensions(d: Seq<u8>) -> Option<(u32, u32)> {
    if d.len() < 30 || d.subrange(0, 4) != tag4('R', 'I', 'F', 'F') || d.subrange(8, 12) != tag4(
        'W',
        'E',
        'B',
        'P',
    ) {
        None
    } else if d.subrange(12, 16) == tag4('V', 'P', '8', ' ') {
        Some((le16(d[26], d[27]) % 16384, le16(d[28], d[29]) % 16384))
    } else if d.subrange(12, 16) == tag4('V', 'P', '8', 'L') {
        let bits = le32(d[21], d[22], d[23], d[24]);
        Some(((bits % 16384 + 1) as u32, ((bits / 16384) % 16384 + 1) as u32))
    } else if d.subrange(12, 16) == tag4('V', 'P', '8', 'X') {
        Some(((le24(d[24], d[25], d[26]) + 1) as u32, (le24(d[27], d[28], d[29]) + 1) as u32))
    } else {
        None
    }
}

/// The signed 32-bit value of four little-endian bytes.
pub open spec fn le_i32(a: u8, b: u8, c: u8, e: u8) -> int {
    let u = le32(a, b, c, e) as int;
    if u >= 0x8000_0000 {
        u - 0x1_0000_0000
    } else {
        u
    }
}

/// Absolute value of an integer.
pub open spec fn abs_int(x: int) -> int {
    if x < 0 {
        -x
    } else {
        x
    }
}

/// A BMP with a BITMAPINFOHEADER whose height is `i32::MIN`, whose
/// absolute value overflows.
pub open spec fn bmp_height_overflows(d: Seq<u8>) -> bool {
    d.len() >= 26 && d[0] == 'B' as u8 && d[1] == 'M' as u8 && le32(d[14], d[15], d[16], d[17])
        == 40 && le_i32(d[22], d[23], d[24], d[25]) == -0x8000_0000
}

/// Width and height of a BMP image with a 40-byte info header.
pub open spec fn bmp_dimensions(d: Seq<u8>) -> Option<(u32, u32)> {
    if d.len() < 26 || d[0] != 'B' as u8 || d[1] != 'M' as u8 {
        None
    } else if le32(d[14], d[15], d[16], d[17]) == 40 {
        Some((le32(d[18], d[19], d[20], d[21]), abs_int(le_i32(d[22], d[23], d[24], d[25])) as u32))
    } else {
        None
    }
}

/// Dimensions announced by the header of an image of the given format.
pub open spec fn dimensions_of(d: Seq<u8>, format: ImageFormat) -> Option<(u32, u32)> {
    match format {
        ImageFormat::Png => png_dimensions(d),
        ImageFormat::Jpeg => jpeg_dimensions(d),
        ImageFormat::Gif => gif_dimensions(d),
        ImageFormat::Webp => webp_dimensions(d),
        ImageFormat::Bmp => bmp_dimensions(d),
    }
}

/// The inputs on which reading the header would overflow an integer.
pub open spec fn header_read_overflows(d: Seq<u8>, format: ImageFormat) -> bool {
    match format {
        ImageFormat::Jpeg => jpeg_underflows(d),
        ImageFormat::Bmp => bmp_height_overflows(d),
        _ => false,
    }
}

fn read_be16(data: &[u8], i: usize) -> (r: u32)
    requires
        i + 1 < data.len(),
    ensures
        r == be16(data@[i as int], data@[i + 1]),
{
    (data[i] as u32) * 256 + (data[i + 1] as u32)
}

fn read_le16(data: &[u8], i: usize) -> (r: u32)
    requires
        i + 1 < data.len(),
    ensures
        r == le16(data@[i as int], data@[i + 1]),
{
    (data[i + 1] as u32) * 256 + (data[i] as u32)
}

fn read_le32(data: &[u8], i: usize) -> (r: u32)
    requires
        i + 3 < data.len(),
    ensures
        r == le32(data@[i as int], data@[i + 1], data@[i + 2], data@[i + 3]),
{
    (data[i + 3] as u32) * 16777216 + (data[i + 2] as u32) * 65536 + (data[i + 1] as u32) * 256
        + (data[i] as u32)
}

fn read_le24(data: &[u8], i: usize) -> (r: u32)
    requires
        i + 2 < data.len(),
    ensures
        r == le24(data@[i as int], data@[i + 1], data@[i + 2]),
{
    (data[i + 2] as u32) * 65536 + (data[i + 1] as u32) * 256 + (data[i] as u32)
}

/// Whether `data[start..start + tag.len()]` equals `tag`.
fn bytes_match(data: &[u8], start: usize, tag: &[u8]) -> (r: bool)
    requires
        start + tag.len() <= data.len(),
    ensures
        r == (data@.subrange(start as int, start + tag@.len()) == tag@),
{
    let mut i: usize = 0;
    while i < tag.len()
        invariant
            i <= tag@.len(),
            start + tag.len() <= data.len(),
            forall|j: int| 0 <= j < i ==> data@[start + j] == tag@[j],
        decreases tag@.len() - i,
    {
        if data[start + i] != tag[i] {
            assert(data@.subrange(start as int, start + tag@.len())[i as int] != tag@[i as int]);
            return false;
        }
        i = i + 1;
    }
    assert(data@.subrange(start as int, start + tag@.len()) =~= tag@);
    true
}

/// Reads the dimensions from the first bytes of an image file, by format.
pub fn extract_dimensions_from_bytes(data: &[u8], format: &ImageFormat) -> (r: Option<(u32, u32)>)
    requires
        !header_read_overflows(data@, *format),
    ensures
        r == dimensions_of(data@, *format),
{
    match format {
        ImageFormat::Png => extract_png_dimensions(data),
        ImageFormat::Jpeg => extract_jpeg_dimensions(data),
        ImageFormat::Gif => extract_gif_dimensions(data),
        ImageFormat::Webp => extract_webp_dimensions(data),
        ImageFormat::Bmp => extract_bmp_dimensions(data),
    }
}

fn extract_png_dimensions(data: &[u8]) -> (r: Option<(u32, u32)>)
    ensures
        r == png_dimensions(data@),
{
    if data.len() < 24 {
        return None;
    }
    let sig: [u8; 8] = [0x89, 0x50, 0x4E, 0x47, 0x0D, 0x0A, 0x1A, 0x0A];
    assert(sig@ =~= png_signature());
    if !bytes_match(data, 0, sig.as_slice()) {
        return None;
    }
    let width = read_be32(data, 16);
    let height = read_be32(data, 20);
    Some((width, height))
}

fn read_be32(data: &[u8], i: usize) -> (r: u32)
    requires
        i + 3 < data.len(),
    ensures
        r == be32(data@[i as int], data@[i + 1], data@[i + 2], data@[i + 3]),
{
    (data[i] as u32) * 16777216 + (data[i + 1] as u32) * 65536 + (data[i + 2] as u32) * 256 + (
    data[i + 3] as u32)
}

fn extract_jpeg_dimensions(data: &[u8]) -> (r: Option<(u32, u32)>)
    requires
        !jpeg_underflows(data@),
    ensures
        r == jpeg_dimensions(data@),
{
    if data.len() < 2 || data[0] != 0xFF || data[1] != 0xD8 {
        return None;
    }
    let limit = data.len() - 9;
    let mut pos: usize = 2;
    while pos < limit
        invariant
            data@.len() >= 9,
            limit == data@.len() - 9,
            jpeg_scan(data@, pos as int) == jpeg_dimensions(data@),
        decreases data@.len() - pos,
    {
        if data[pos] != 0xFF {
            return None;
        }
        let marker = data[pos + 1];
        pos = pos + 2;
        if 0xC0 <= marker && marker <= 0xCF && marker != 0xC4 && marker != 0xC8 && marker != 0xCC {
            let height = read_be16(data, pos + 3);
            let width = read_be16(data, pos + 5);
            return Some((width, height));
        }
        let length = read_be16(data, pos);
        let remaining: usize = if pos >= limit {
            0
        } else {
            limit - pos
        };
        if length as usize >= remaining {
            return None;
        }
        pos = pos + length as usize;
    }
    None
}

fn extract_gif_dimensions(data: &[u8]) -> (r: Option<(u32, u32)>)
    ensures
        r == gif_dimensions(data@),
{
    if data.len() < 10 {
        return None;
    }
    let tag: [u8; 3] = [0x47, 0x49, 0x46];
    assert(tag@ =~= seq!['G' as u8, 'I' as u8, 'F' as u8]);
    if !bytes_match(data, 0, tag.as_slice()) {
        return None;
    }
    let width = read_le16(data, 6);
    let height = read_le16(data, 8);
    Some((width, height))
}

fn extract_webp_dimensions(data: &[u8]) -> (r: Option<(u32, u32)>)
    ensures
        r == webp_dimensions(data@),
{
    if data.len() < 30 {
        return None;
    }
    let riff: [u8; 4] = [0x52, 0x49, 0x46, 0x46];
    let webp: [u8; 4] = [0x57, 0x45, 0x42, 0x50];
    let vp8: [u8; 4] = [0x56, 0x50, 0x38, 0x20];
    let vp8l: [u8; 4] = [0x56, 0x50, 0x38, 0x4C];
    let vp8x: [u8; 4] = [0x56, 0x50, 0x38, 0x58];
    assert(riff@ =~= tag4('R', 'I', 'F', 'F'));
    assert(webp@ =~= tag4('W', 'E', 'B', 'P'));
    assert(vp8@ =~= tag4('V', 'P', '8', ' '));
    assert(vp8l@ =~= tag4('V', 'P', '8', 'L'));
    assert(vp8x@ =~= tag4('V', 'P', '8', 'X'));
    if !bytes_match(data, 0, riff.as_slice()) || !bytes_match(data, 8, webp.as_slice()) {
        return None;
    }
    if bytes_match(data, 12, vp8.as_slice()) {
        let width = read_le16(data, 26) % 16384;
        let height = read_le16(data, 28) % 16384;
        return Some((width, height));
    }
    if bytes_match(data, 12, vp8l.as_slice()) {
        let bits = read_le32(data, 21);
        let width = bits % 16384 + 1;
        let height = (bits / 16384) % 16384 + 1;
        return Some((width, height));
    }
    if bytes_match(data, 12, vp8x.as_slice()) {
        let width = read_le24(data, 24) + 1;
        let height = read_le24(data, 27) + 1;
        return Some((width, height));
    }
    None
}

fn extract_bmp_dimensions(data: &[u8]) -> (r: Option<(u32, u32)>)
    requires
        !bmp_height_overflows(data@),
    ensures
        r == bmp_dimensions(data@),
{
    if data.len() < 26 {
        return None;
    }
    if data[0] != 0x42 || data[1] != 0x4D {
        return None;
    }
    let dib_header_size = read_le32(data, 14);
    if dib_header_size == 40 {
        let width = read_le32(data, 18);
        let raw = read_le32(data, 22);
        let height: u32 = if raw >= 0x8000_0000 {
            (0xFFFF_FFFFu32 - raw) + 1
        } else {
            raw
        };
        return Some((width, height));
    }
    None
}

/// Whether reading the header of `data` as `format` would overflow an
/// integer (see `header_read_overflows`).
pub fn header_would_overflow(data: &[u8], format: &ImageFormat) -> (r: bool)
    ensures
        r == header_read_overflows(data@, *format),
{
    match format {
        ImageFormat::Jpeg => data.len() >= 2 && data[0] == 0xFF && data[1] == 0xD8 && data.len() < 9,
        ImageFormat::Bmp => {
            if data.len() < 26 || data[0] != 0x42 || data[1] != 0x4D {
                return false;
            }
            proof {
                assert('B' as u8 == 0x42u8);
                assert('M' as u8 == 0x4Du8);
            }
            let raw = read_le32(data, 22);
            read_le32(data, 14) == 40 && raw == 0x8000_0000
        },
        _ => false,
    }
}

} // verus!
