use vstd::prelude::*;
use crate::image_data::ImageFormat;
use crate::dimension_extractor::{dimensions_of, is_sof_marker};

verus! {

/// The width in a pair of dimensions (0 for none).
pub open spec fn width_of(r: Option<(u32, u32)>) -> int {
    match r {
        Some((w, _)) => w as int,
        None => 0,
    }
}

/// The height in a pair of dimensions (0 for none).
pub open spec fn height_of(r: Option<(u32, u32)>) -> int {
    match r {
        Some((_, h)) => h as int,
        None => 0,
    }
}

/// A GIF header gives the width as the little-endian number in bytes 6 and
/// 7, and the height as the one in bytes 8 and 9.
pub proof fn law_gif_width_then_height(d: Seq<u8>)
    requires
        d.len() >= 10,
        d[0] == 0x47,
        d[1] == 0x49,
        d[2] == 0x46,
    ensures
        dimensions_of(d, ImageFormat::Gif) is Some,
        width_of(dimensions_of(d, ImageFormat::Gif)) == d[6] + 256 * d[7],
        height_of(dimensions_of(d, ImageFormat::Gif)) == d[8] + 256 * d[9],
{
    assert(d.subrange(0, 3) =~= seq!['G' as u8, 'I' as u8, 'F' as u8]);
}

/// Bytes that do not start with `GIF` give no GIF dimensions.
pub proof fn law_gif_needs_its_tag(d: Seq<u8>)
    requires
        d.len() < 10 || d[0] != 0x47 || d[1] != 0x49 || d[2] != 0x46,
    ensures
        dimensions_of(d, ImageFormat::Gif) is None,
{
    if d.len() >= 10 {
        let t = d.subrange(0, 3);
        if t == seq!['G' as u8, 'I' as u8, 'F' as u8] {
            assert(t[0] == d[0] && t[1] == d[1] && t[2] == d[2]);
        }
    }
}

/// A PNG header gives the width as the big-endian number in bytes 16 to 19
/// and the height as the one in bytes 20 to 23.
pub proof fn law_png_width_then_height(d: Seq<u8>)
    requires
        d.len() >= 24,
        d.subrange(0, 8) =~= seq![0x89u8, 0x50u8, 0x4Eu8, 0x47u8, 0x0Du8, 0x0Au8, 0x1Au8, 0x0Au8],
    ensures
        dimensions_of(d, ImageFormat::Png) is Some,
        width_of(dimensions_of(d, ImageFormat::Png)) == d[16] * 16777216 + d[17] * 65536 + d[18] * 256 + d[19],
        height_of(dimensions_of(d, ImageFormat::Png)) == d[20] * 16777216 + d[21] * 65536 + d[22] * 256 + d[23],
{
}

/// A BMP header with a 40-byte info header gives the width as the
/// little-endian number in bytes 18 to 21, and the height as the size of the
/// signed little-endian number in bytes 22 to 25 (negative for top-down
/// images).
pub proof fn law_bmp_width_then_height(d: Seq<u8>)
    requires
        d.len() >= 26,
        d[0] == 0x42,
        d[1] == 0x4D,
        d[14] == 40 && d[15] == 0 && d[16] == 0 && d[17] == 0,
    ensures
        dimensions_of(d, ImageFormat::Bmp) is Some,
        width_of(dimensions_of(d, ImageFormat::Bmp)) == d[18] + d[19] * 256 + d[20] * 65536 + d[21] * 16777216,
        d[25] < 128 ==> height_of(dimensions_of(d, ImageFormat::Bmp)) == d[22] + d[23] * 256 + d[24] * 65536 + d[25]
            * 16777216,
        d[25] >= 128 ==> height_of(dimensions_of(d, ImageFormat::Bmp)) == 0x1_0000_0000 - (d[22] + d[23] * 256 + d[24]
            * 65536 + d[25] * 16777216),
{
}

/// A JPEG whose first segment is a start-of-frame gives the width as the
/// big-endian number in bytes 9 and 10 and the height as the one in bytes
/// 7 and 8 (the frame header stores the height first).
pub proof fn law_jpeg_first_frame(d: Seq<u8>)
    requires
        d.len() >= 12,
        d[0] == 0xFF && d[1] == 0xD8 && d[2] == 0xFF,
        is_sof_marker(d[3]),
    ensures
        dimensions_of(d, ImageFormat::Jpeg) is Some,
        width_of(dimensions_of(d, ImageFormat::Jpeg)) == d[9] * 256 + d[10],
        height_of(dimensions_of(d, ImageFormat::Jpeg)) == d[7] * 256 + d[8],
{
}

/// An extended WebP (`VP8X`) gives the width as one more than the
/// little-endian number in bytes 24 to 26 and the height as one more than
/// the one in bytes 27 to 29.
pub proof fn law_webp_extended_width_then_height(d: Seq<u8>)
    requires
        d.len() >= 30,
        d.subrange(0, 4) =~= seq![0x52u8, 0x49u8, 0x46u8, 0x46u8],
        d.subrange(8, 12) =~= seq![0x57u8, 0x45u8, 0x42u8, 0x50u8],
        d.subrange(12, 16) =~= seq![0x56u8, 0x50u8, 0x38u8, 0x58u8],
    ensures
        dimensions_of(d, ImageFormat::Webp) is Some,
        width_of(dimensions_of(d, ImageFormat::Webp)) == d[24] + d[25] * 256 + d[26] * 65536 + 1,
        height_of(dimensions_of(d, ImageFormat::Webp)) == d[27] + d[28] * 256 + d[29] * 65536 + 1,
{
    assert(seq![0x56u8, 0x50u8, 0x38u8, 0x58u8] != seq!['V' as u8, 'P' as u8, '8' as u8, ' ' as u8]) by {
        assert(seq![0x56u8, 0x50u8, 0x38u8, 0x58u8][3] != seq!['V' as u8, 'P' as u8, '8' as u8, ' ' as u8][3]);
    }
    assert(seq![0x56u8, 0x50u8, 0x38u8, 0x58u8] != seq!['V' as u8, 'P' as u8, '8' as u8, 'L' as u8]) by {
        assert(seq![0x56u8, 0x50u8, 0x38u8, 0x58u8][3] != seq!['V' as u8, 'P' as u8, '8' as u8, 'L' as u8][3]);
    }
    assert(crate::dimension_extractor::tag4('R', 'I', 'F', 'F') =~= seq![0x52u8, 0x49u8, 0x46u8, 0x46u8]);
    assert(crate::dimension_extractor::tag4('W', 'E', 'B', 'P') =~= seq![0x57u8, 0x45u8, 0x42u8, 0x50u8]);
    assert(crate::dimension_extractor::tag4('V', 'P', '8', 'X') =~= seq![0x56u8, 0x50u8, 0x38u8, 0x58u8]);
}

/// A lossy WebP (`VP8 `) gives the width as the low 14 bits of the
/// little-endian number in bytes 26 and 27 and the height as those of the
/// one in bytes 28 and 29.
pub proof fn law_webp_lossy_width_then_height(d: Seq<u8>)
    requires
        d.len() >= 30,
        d.subrange(0, 4) =~= seq![0x52u8, 0x49u8, 0x46u8, 0x46u8],
        d.subrange(8, 12) =~= seq![0x57u8, 0x45u8, 0x42u8, 0x50u8],
        d.subrange(12, 16) =~= seq![0x56u8, 0x50u8, 0x38u8, 0x20u8],
    ensures
        dimensions_of(d, ImageFormat::Webp) is Some,
        width_of(dimensions_of(d, ImageFormat::Webp)) == (d[26] + d[27] * 256) % 16384,
        height_of(dimensions_of(d, ImageFormat::Webp)) == (d[28] + d[29] * 256) % 16384,
{
    assert(crate::dimension_extractor::tag4('R', 'I', 'F', 'F') =~= seq![0x52u8, 0x49u8, 0x46u8, 0x46u8]);
    assert(crate::dimension_extractor::tag4('W', 'E', 'B', 'P') =~= seq![0x57u8, 0x45u8, 0x42u8, 0x50u8]);
    assert(crate::dimension_extractor::tag4('V', 'P', '8', ' ') =~= seq![0x56u8, 0x50u8, 0x38u8, 0x20u8]);
}

/// A lossless WebP (`VP8L`) packs width and height, each less one, in 14
/// bits apiece of the little-endian number in bytes 21 to 24, width first.
pub proof fn law_webp_lossless_width_then_height(d: Seq<u8>)
    requires
        d.len() >= 30,
        d.subrange(0, 4) =~= seq![0x52u8, 0x49u8, 0x46u8, 0x46u8],
        d.subrange(8, 12) =~= seq![0x57u8, 0x45u8, 0x42u8, 0x50u8],
        d.subrange(12, 16) =~= seq![0x56u8, 0x50u8, 0x38u8, 0x4Cu8],
    ensures
        ({
            let bits = d[21] + d[22] * 256 + d[23] * 65536 + d[24] * 16777216;
            &&& dimensions_of(d, ImageFormat::Webp) is Some
            &&& width_of(dimensions_of(d, ImageFormat::Webp)) == bits % 16384 + 1
            &&& height_of(dimensions_of(d, ImageFormat::Webp)) == (bits / 16384) % 16384 + 1
        }),
{
    assert(seq![0x56u8, 0x50u8, 0x38u8, 0x4Cu8] != seq!['V' as u8, 'P' as u8, '8' as u8, ' ' as u8]) by {
        assert(seq![0x56u8, 0x50u8, 0x38u8, 0x4Cu8][3] != seq!['V' as u8, 'P' as u8, '8' as u8, ' ' as u8][3]);
    }
    assert(crate::dimension_extractor::tag4('R', 'I', 'F', 'F') =~= seq![0x52u8, 0x49u8, 0x46u8, 0x46u8]);
    assert(crate::dimension_extractor::tag4('W', 'E', 'B', 'P') =~= seq![0x57u8, 0x45u8, 0x42u8, 0x50u8]);
    assert(crate::dimension_extractor::tag4('V', 'P', '8', 'L') =~= seq![0x56u8, 0x50u8, 0x38u8, 0x4Cu8]);
}

/// A JPEG skips a segment that is not a frame by its big-endian length, and
/// reads the dimensions of the frame that follows (height, then width).
pub proof fn law_jpeg_skips_other_segments(d: Seq<u8>)
    requires
        d.len() >= 12,
        d[0] == 0xFF && d[1] == 0xD8 && d[2] == 0xFF,
        !is_sof_marker(d[3]),
        ({
            let f = 4 + d[4] * 256 + d[5];
            &&& f + 9 < d.len()
            &&& d[f] == 0xFF
            &&& is_sof_marker(d[f + 1])
        }),
    ensures
        ({
            let f = 4 + d[4] * 256 + d[5];
            &&& dimensions_of(d, ImageFormat::Jpeg) is Some
            &&& width_of(dimensions_of(d, ImageFormat::Jpeg)) == d[f + 7] * 256 + d[f + 8]
            &&& height_of(dimensions_of(d, ImageFormat::Jpeg)) == d[f + 5] * 256 + d[f + 6]
        }),
{
    let f = 4 + d[4] * 256 + d[5];
    assert(crate::dimension_extractor::jpeg_scan(d, 2) == crate::dimension_extractor::jpeg_scan(d, f));
}

} // verus!
