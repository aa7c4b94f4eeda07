//! The bitmap side of the codec: composing a complete BMP stream from header
//! geometry, palette and pixel rows, and writing a BMP stream back onto the
//! clipboard as a device-independent payload.
//!
//! The write-back parses the very fields the composer emits, in the same
//! order and widths, so composing, writing back, and reading the clipboard
//! again reproduces the stream byte for byte ([`lemma_bmp_round_trip`]).

use vstd::prelude::*;

use crate::SysResult;
use crate::dib::BMP_SIGNATURE;
use crate::dib::append_bytes;
use crate::dib::le16;
use crate::dib::le32;
use crate::dib::le32_at;
use crate::dib::lemma_u32_le_round;
use crate::dib::push_le16;
use crate::dib::push_le32;
use crate::dib::read_u32_le;
use crate::dib::tail_from;
use crate::error::ErrorKind;
use crate::error::ERROR_CLIPBOARD_NOT_OPEN;
use crate::error::ERROR_INVALID_DATA;
use crate::formats::CF_BITMAP;
use crate::state::ClipboardState;

verus! {

/// The fixed-size bitmap info header, field by field.
#[derive(Clone, Copy, Debug, PartialEq, Eq, Structural)]
pub struct DibHeader {
    /// Size of this header in bytes (always 40 for this codec).
    pub size: u32,
    /// Width in pixels.
    pub width: i32,
    /// Height in pixels; positive means bottom-up row order.
    pub height: i32,
    /// Number of planes (always 1 on the wire).
    pub planes: u16,
    /// Bits per pixel.
    pub bit_count: u16,
    /// Compression tag; zero means uncompressed.
    pub compression: u32,
    /// Size of the pixel data in bytes.
    pub size_image: u32,
    /// Horizontal resolution, pixels per meter.
    pub x_ppm: i32,
    /// Vertical resolution, pixels per meter.
    pub y_ppm: i32,
    /// Number of palette entries used; zero means the full set for the depth.
    pub clr_used: u32,
    /// Number of palette entries required; zero means all.
    pub clr_important: u32,
}

/// The two's-complement thirty-two-bit image of a signed value.
pub open spec fn as_u32(x: i32) -> u32 {
    if x < 0 {
        (x + 0x1_0000_0000) as u32
    } else {
        x as u32
    }
}

/// The little-endian bytes of a signed thirty-two-bit value.
pub open spec fn le32i(x: i32) -> Seq<u8> {
    le32(as_u32(x))
}

/// The 40 bytes of an info header, fields in documented order, little-endian.
pub open spec fn header_bytes(h: DibHeader) -> Seq<u8> {
    le32(h.size) + le32i(h.width) + le32i(h.height) + le16(h.planes) + le16(h.bit_count) + le32(
        h.compression,
    ) + le32(h.size_image) + le32i(h.x_ppm) + le32i(h.y_ppm) + le32(h.clr_used) + le32(
        h.clr_important,
    )
}

/// The effective color depth for a plane/bit-count pair, rounded up to the
/// nearest representable BMP depth.
pub open spec fn spec_depth_bucket(clr_bits: int) -> u32 {
    if clr_bits == 1 {
        1
    } else if clr_bits <= 4 {
        4
    } else if clr_bits <= 8 {
        8
    } else if clr_bits <= 16 {
        16
    } else if clr_bits <= 24 {
        24
    } else {
        32
    }
}

/// Bytes per pixel row, rows padded to four-byte boundaries.
pub open spec fn spec_stride(width: int, depth: int) -> int {
    ((width * depth + 31) / 32) * 4
}

/// Total pixel bytes for an image of the given geometry.
pub open spec fn spec_size_image(width: int, height: int, depth: int) -> int {
    spec_stride(width, depth) * height
}

/// The pixel-data offset of a composed BMP stream: the 14-byte file header,
/// the info header, and four bytes per palette entry.
pub open spec fn stream_offset(h: DibHeader) -> u32 {
    14u32.wrapping_add(h.size).wrapping_add(4u32.wrapping_mul(h.clr_used))
}

/// The declared total size of a composed BMP stream.
pub open spec fn stream_size(h: DibHeader) -> u32 {
    stream_offset(h).wrapping_add(h.size_image)
}

/// The complete BMP stream for a header, palette and pixel rows.
pub open spec fn bmp_stream(h: DibHeader, palette: Seq<u8>, pixels: Seq<u8>) -> Seq<u8> {
    le16(BMP_SIGNATURE) + le32(stream_size(h)) + le16(0) + le16(0) + le32(stream_offset(h))
        + header_bytes(h) + palette + pixels
}

/// The BMP stream rendered for a device-independent payload taken off the
/// clipboard: a file header synthesized from the payload's declared header
/// size, palette count and image size, then the payload verbatim.
pub open spec fn render_dib(d: Seq<u8>) -> Seq<u8> {
    let off = 14u32.wrapping_add(le32_at(d, 0)).wrapping_add(4u32.wrapping_mul(le32_at(d, 32)));
    let total = off.wrapping_add(le32_at(d, 20));
    le16(BMP_SIGNATURE) + le32(total) + le16(0) + le16(0) + le32(off) + d
}

/// A bitmap as a complete BMP byte stream.
pub struct Image {
    /// Raw image data: file header, info header, palette, pixel rows.
    pub bytes: Vec<u8>,
}

impl Image {
    /// The info header describing a captured bitmap of the given geometry:
    /// depth rounded up to the nearest BMP depth, uncompressed pixel rows
    /// padded to four-byte boundaries, and a full palette below true color.
    pub fn dib_header_for(width: i32, height: i32, planes: u16, bits_pixel: u16) -> (r:
        DibHeader)
        requires
            0 <= width,
            0 <= height,
            spec_size_image(
                width as int,
                height as int,
                spec_depth_bucket(planes as int * bits_pixel as int) as int,
            ) <= 0xFFFF_FFFF,
        ensures
            r == (DibHeader {
                size: 40u32,
                width,
                height,
                planes,
                bit_count: bits_pixel,
                compression: 0u32,
                size_image: spec_size_image(
                    width as int,
                    height as int,
                    spec_depth_bucket(planes as int * bits_pixel as int) as int,
                ) as u32,
                x_ppm: 0i32,
                y_ppm: 0i32,
                clr_used: (if spec_depth_bucket(planes as int * bits_pixel as int) < 24 {
                    1u32 << spec_depth_bucket(planes as int * bits_pixel as int)
                } else {
                    0u32
                }),
                clr_important: 0u32,
            }),
    {
        proof {
            assert(planes as int * bits_pixel as int <= 0xFFFF * 0xFFFF) by (nonlinear_arith)
                requires
                    planes <= 0xFFFF,
                    bits_pixel <= 0xFFFF,
            ;
        }
        let clr_bits_raw: u32 = (planes as u32) * (bits_pixel as u32);
        let clr_bits: u32 = if clr_bits_raw == 1 {
            1
        } else if clr_bits_raw <= 4 {
            4
        } else if clr_bits_raw <= 8 {
            8
        } else if clr_bits_raw <= 16 {
            16
        } else if clr_bits_raw <= 24 {
            24
        } else {
            32
        };
        proof {
            assert(width as int * clr_bits as int <= 0x7FFF_FFFF * 32) by (nonlinear_arith)
                requires
                    0 <= width <= 0x7FFF_FFFF,
                    clr_bits <= 32,
            ;
        }
        let stride_u64: u64 = (((width as u64) * (clr_bits as u64) + 31) / 32) * 4;
        proof {
            assert(stride_u64 * (height as u64) <= 0xFFFF_FFFF) by (nonlinear_arith)
                requires
                    stride_u64 == spec_stride(width as int, clr_bits as int),
                    spec_stride(width as int, clr_bits as int) * (height as int)
                        == spec_size_image(width as int, height as int, clr_bits as int),
                    spec_size_image(width as int, height as int, clr_bits as int) <= 0xFFFF_FFFF,
                    0 <= height,
                    0 <= stride_u64,
            ;
        }
        let size_image_u64: u64 = stride_u64 * (height as u64);
        proof {
            assert(stride_u64 == spec_stride(width as int, clr_bits as int));
            assert(size_image_u64 == spec_size_image(width as int, height as int, clr_bits as int))
                by (nonlinear_arith)
                requires
                    stride_u64 == spec_stride(width as int, clr_bits as int),
                    size_image_u64 == stride_u64 * (height as u64),
                    0 <= height,
            ;
        }
        let clr_used: u32 = if clr_bits < 24 {
            1u32 << clr_bits
        } else {
            0
        };
        DibHeader {
            size: 40,
            width,
            height,
            planes,
            bit_count: bits_pixel,
            compression: 0,
            size_image: size_image_u64 as u32,
            x_ppm: 0,
            y_ppm: 0,
            clr_used,
            clr_important: 0,
        }
    }

    /// Composes a complete BMP stream from an info header, its palette
    /// entries (four bytes each) and its pixel rows.
    pub fn from_dib(header: &DibHeader, palette: &Vec<u8>, pixels: &Vec<u8>) -> (r: Image)
        requires
            header.size == 40,
            palette@.len() == 4 * header.clr_used,
            pixels@.len() == header.size_image,
            54 + palette@.len() + pixels@.len() <= 0xFFFF_FFFF,
        ensures
            r.bytes@ == bmp_stream(*header, palette@, pixels@),
    {
        let offset: u32 = 14u32.wrapping_add(header.size).wrapping_add(
            4u32.wrapping_mul(header.clr_used),
        );
        let total: u32 = offset.wrapping_add(header.size_image);
        let mut out: Vec<u8> = Vec::new();
        push_le16(&mut out, BMP_SIGNATURE);
        push_le32(&mut out, total);
        push_le16(&mut out, 0);
        push_le16(&mut out, 0);
        push_le32(&mut out, offset);
        Self::push_header(&mut out, header);
        append_bytes(&mut out, palette);
        append_bytes(&mut out, pixels);
        proof {
            assert(out@ =~= bmp_stream(*header, palette@, pixels@));
        }
        Image { bytes: out }
    }

    /// Appends the 40 header bytes, field by field, little-endian.
    fn push_header(out: &mut Vec<u8>, h: &DibHeader)
        ensures
            final(out)@ == old(out)@ + header_bytes(*h),
    {
        push_le32(out, h.size);
        push_le32_signed(out, h.width);
        push_le32_signed(out, h.height);
        push_le16(out, h.planes);
        push_le16(out, h.bit_count);
        push_le32(out, h.compression);
        push_le32(out, h.size_image);
        push_le32_signed(out, h.x_ppm);
        push_le32_signed(out, h.y_ppm);
        push_le32(out, h.clr_used);
        push_le32(out, h.clr_important);
        proof {
            assert(out@ =~= old(out)@ + header_bytes(*h));
        }
    }

    /// Parses the stream's file header and attaches everything after it to
    /// the clipboard as the device-independent bitmap payload, emptying the
    /// clipboard first. Fails with the invalid-data code when the stream is
    /// shorter than its two headers or its declared pixel offset lies past
    /// its end.
    pub fn write_to_clipboard(&self, cb: &mut ClipboardState) -> (r: SysResult<()>)
        requires
            old(cb)@.wf(),
        ensures
            final(cb)@.wf(),
            self.bytes@.len() < 54 ==> r == Err::<(), ErrorKind>(
                ErrorKind::PlatformFailure(ERROR_INVALID_DATA),
            ) && final(cb)@ == old(cb)@,
            self.bytes@.len() >= 54 && le32_at(self.bytes@, 10) > self.bytes@.len() ==> r == Err::<
                (),
                ErrorKind,
            >(ErrorKind::PlatformFailure(ERROR_INVALID_DATA)) && final(cb)@ == old(cb)@,
            self.bytes@.len() >= 54 && le32_at(self.bytes@, 10) <= self.bytes@.len() && !old(
                cb,
            )@.is_open ==> r == Err::<(), ErrorKind>(
                ErrorKind::PlatformFailure(ERROR_CLIPBOARD_NOT_OPEN),
            ) && final(cb)@ == old(cb)@,
            self.bytes@.len() >= 54 && le32_at(self.bytes@, 10) <= self.bytes@.len() && old(
                cb,
            )@.is_open ==> r == Ok::<(), ErrorKind>(()) && final(cb)@ == old(
                cb,
            )@.emptied().with_entry(CF_BITMAP, self.bytes@.skip(14)),
    {
        if self.bytes.len() < 54 {
            return Err(ErrorKind::PlatformFailure(ERROR_INVALID_DATA));
        }
        let offset = read_u32_le(&self.bytes, 10);
        if offset as usize > self.bytes.len() {
            return Err(ErrorKind::PlatformFailure(ERROR_INVALID_DATA));
        }
        let dib = tail_from(&self.bytes, 14);
        crate::raw::set(cb, CF_BITMAP, &dib)
    }

    /// Takes the device-independent bitmap payload off the clipboard and
    /// renders it as a complete BMP stream. Fails with the invalid-data code
    /// when the payload cannot hold an info header.
    pub fn from_clipboard(cb: &ClipboardState) -> (r: SysResult<Image>)
        requires
            cb@.wf(),
        ensures
            !cb@.is_open ==> r == Err::<Image, ErrorKind>(
                ErrorKind::PlatformFailure(ERROR_CLIPBOARD_NOT_OPEN),
            ),
            cb@.is_open && !cb@.has(CF_BITMAP) ==> r == Err::<Image, ErrorKind>(
                ErrorKind::FormatUnavailable,
            ),
            cb@.is_open && cb@.has(CF_BITMAP) && cb@.payload(CF_BITMAP).len() < 40 ==> r == Err::<
                Image,
                ErrorKind,
            >(ErrorKind::PlatformFailure(ERROR_INVALID_DATA)),
            cb@.is_open && cb@.has(CF_BITMAP) && cb@.payload(CF_BITMAP).len() >= 40 ==> (r
                matches Ok(img) && img.bytes@ == render_dib(cb@.payload(CF_BITMAP))),
    {
        if !cb.is_open {
            return Err(ErrorKind::PlatformFailure(ERROR_CLIPBOARD_NOT_OPEN));
        }
        let mut payload: Vec<u8> = Vec::new();
        match crate::raw::get_vec(cb, CF_BITMAP, &mut payload) {
            Ok(_) => {},
            Err(e) => {
                return Err(e);
            },
        }
        proof {
            assert(payload@ =~= cb@.payload(CF_BITMAP));
        }
        if payload.len() < 40 {
            return Err(ErrorKind::PlatformFailure(ERROR_INVALID_DATA));
        }
        let header_size = read_u32_le(&payload, 0);
        let image_size = read_u32_le(&payload, 20);
        let clr_used = read_u32_le(&payload, 32);
        let offset: u32 = 14u32.wrapping_add(header_size).wrapping_add(
            4u32.wrapping_mul(clr_used),
        );
        let total: u32 = offset.wrapping_add(image_size);
        let mut out: Vec<u8> = Vec::new();
        push_le16(&mut out, BMP_SIGNATURE);
        push_le32(&mut out, total);
        push_le16(&mut out, 0);
        push_le16(&mut out, 0);
        push_le32(&mut out, offset);
        append_bytes(&mut out, &payload);
        proof {
            assert(out@ =~= render_dib(cb@.payload(CF_BITMAP)));
        }
        Ok(Image { bytes: out })
    }
}


/// Round trip of the bitmap codec: compose a BMP stream, write it back onto
/// the clipboard (which stores everything after the file header), and render
/// the stored payload again — the very same stream returns, byte for byte.
/// In particular the declared width, height, bit count and image size all
/// survive unchanged.
pub proof fn lemma_bmp_round_trip(h: DibHeader, palette: Seq<u8>, pixels: Seq<u8>)
    requires
        h.size == 40,
        palette.len() == 4 * h.clr_used,
        pixels.len() == h.size_image,
        54 + palette.len() + pixels.len() <= 0xFFFF_FFFF,
    ensures
        ({
            let stream = bmp_stream(h, palette, pixels);
            &&& stream.len() == 54 + palette.len() + pixels.len()
            &&& le32_at(stream, 10) == 54 + 4 * h.clr_used
            &&& le32_at(stream, 10) <= stream.len()
            &&& render_dib(stream.skip(14)) == stream
        }),
{
    let stream = bmp_stream(h, palette, pixels);
    let hb = header_bytes(h);
    assert(hb.len() == 40);
    assert(stream.len() == 54 + palette.len() + pixels.len());
    vstd::arithmetic::div_mod::lemma_small_mod((4 * h.clr_used) as nat, 0x1_0000_0000nat);
    assert(4u32.wrapping_mul(h.clr_used) == 4 * h.clr_used);
    let off = stream_offset(h);
    assert(off == 54 + 4 * h.clr_used);
    let total = stream_size(h);
    assert(total == off + h.size_image);
    // The offset field of the file header reads back as the offset.
    assert(stream[10] == le32(off)[0]);
    assert(stream[11] == le32(off)[1]);
    assert(stream[12] == le32(off)[2]);
    assert(stream[13] == le32(off)[3]);
    assert(le32_at(stream, 10) == off) by {
        lemma_u32_le_round(off);
    }
    // The stored payload is the stream behind the file header.
    let d = stream.skip(14);
    assert(d =~= hb + palette + pixels);
    // The three fields the renderer reads come back as the composed values.
    assert(d[0] == le32(h.size)[0]);
    assert(d[1] == le32(h.size)[1]);
    assert(d[2] == le32(h.size)[2]);
    assert(d[3] == le32(h.size)[3]);
    assert(le32_at(d, 0) == h.size) by {
        lemma_u32_le_round(h.size);
    }
    assert(d[20] == le32(h.size_image)[0]);
    assert(d[21] == le32(h.size_image)[1]);
    assert(d[22] == le32(h.size_image)[2]);
    assert(d[23] == le32(h.size_image)[3]);
    assert(le32_at(d, 20) == h.size_image) by {
        lemma_u32_le_round(h.size_image);
    }
    assert(d[32] == le32(h.clr_used)[0]);
    assert(d[33] == le32(h.clr_used)[1]);
    assert(d[34] == le32(h.clr_used)[2]);
    assert(d[35] == le32(h.clr_used)[3]);
    assert(le32_at(d, 32) == h.clr_used) by {
        lemma_u32_le_round(h.clr_used);
    }
    // The renderer therefore synthesizes the very same file header.
    assert(14u32.wrapping_add(le32_at(d, 0)).wrapping_add(4u32.wrapping_mul(le32_at(d, 32)))
        == off);
    assert(render_dib(d) =~= stream);
}

/// Appends the little-endian bytes of a signed thirty-two-bit value, as its
/// two's-complement image.
pub fn push_le32_signed(out: &mut Vec<u8>, x: i32)
    ensures
        final(out)@ == old(out)@ + le32i(x),
{
    let v: u32 = u32_of_i32(x);
    push_le32(out, v);
}

/// The two's-complement thirty-two-bit image of a signed value.
fn u32_of_i32(x: i32) -> (r: u32)
    ensures
        r == as_u32(x),
{
    if x >= 0 {
        x as u32
    } else {
        let y: i64 = x as i64 + 0x1_0000_0000i64;
        y as u32
    }
}

} // verus!
