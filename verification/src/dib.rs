//! The DIB side of the bitmap codec: turning a stored device-independent
//! bitmap payload into a self-contained BMP byte stream.
//!
//! A DIB payload is the bitmap as stored on the clipboard: an info header
//! whose first field declares its own size (40 bytes for the plain header,
//! more for the extended variants), then palette entries and pixel rows. A
//! BMP file prepends a 14-byte file header whose pixel offset is 14 plus the
//! declared header size and whose total is that offset plus the declared
//! image size; both declared fields are trusted as the capturer wrote them.
//! All fields are serialized field by field, little-endian, never by copying
//! an in-memory structure, so the wire layout is independent of any host
//! representation.

use vstd::prelude::*;

use crate::SysResult;
use crate::error::ErrorKind;
use crate::error::ERROR_CLIPBOARD_NOT_OPEN;
use crate::error::ERROR_INVALID_DATA;
use crate::state::ClipboardState;

verus! {

/// The two-byte BMP signature, little-endian `0x4D42` (`"BM"`).
pub const BMP_SIGNATURE: u16 = 0x4D42;

/// The little-endian bytes of a sixteen-bit value.
pub open spec fn le16(x: u16) -> Seq<u8> {
    seq![(x & 0xFF) as u8, ((x >> 8) & 0xFF) as u8]
}

/// The little-endian bytes of a thirty-two-bit value.
pub open spec fn le32(x: u32) -> Seq<u8> {
    seq![
        (x & 0xFF) as u8,
        ((x >> 8) & 0xFF) as u8,
        ((x >> 16) & 0xFF) as u8,
        ((x >> 24) & 0xFF) as u8,
    ]
}

/// The value carried by four little-endian bytes.
pub open spec fn u32_from_le(b0: u8, b1: u8, b2: u8, b3: u8) -> u32 {
    (b0 as u32) | ((b1 as u32) << 8) | ((b2 as u32) << 16) | ((b3 as u32) << 24)
}

/// The thirty-two-bit field stored at byte offset `off`.
pub open spec fn le32_at(b: Seq<u8>, off: int) -> u32 {
    u32_from_le(b[off], b[off + 1], b[off + 2], b[off + 3])
}

/// Reading back the little-endian bytes of a thirty-two-bit value is the identity.
pub proof fn lemma_u32_le_round(x: u32)
    ensures
        u32_from_le(
            (x & 0xFF) as u8,
            ((x >> 8) & 0xFF) as u8,
            ((x >> 16) & 0xFF) as u8,
            ((x >> 24) & 0xFF) as u8,
        ) == x,
{
    assert(((((x & 0xFF) as u8) as u32) | ((((x >> 8) & 0xFF) as u8) as u32) << 8 | ((((x >> 16)
        & 0xFF) as u8) as u32) << 16 | ((((x >> 24) & 0xFF) as u8) as u32) << 24) == x)
        by (bit_vector);
}

/// Appends the little-endian bytes of a sixteen-bit value.
pub fn push_le16(out: &mut Vec<u8>, x: u16)
    ensures
        final(out)@ == old(out)@ + le16(x),
{
    proof {
        assert(x & 0xFF < 256 && (x >> 8) & 0xFF < 256) by (bit_vector);
    }
    out.push((x & 0xFF) as u8);
    out.push(((x >> 8) & 0xFF) as u8);
    proof {
        assert(out@ =~= old(out)@ + le16(x));
    }
}

/// Appends the little-endian bytes of a thirty-two-bit value.
pub fn push_le32(out: &mut Vec<u8>, x: u32)
    ensures
        final(out)@ == old(out)@ + le32(x),
{
    proof {
        assert(x & 0xFF < 256 && (x >> 8) & 0xFF < 256 && (x >> 16) & 0xFF < 256 && (x >> 24)
            & 0xFF < 256) by (bit_vector);
    }
    out.push((x & 0xFF) as u8);
    out.push(((x >> 8) & 0xFF) as u8);
    out.push(((x >> 16) & 0xFF) as u8);
    out.push(((x >> 24) & 0xFF) as u8);
    proof {
        assert(out@ =~= old(out)@ + le32(x));
    }
}

/// The thirty-two-bit field stored at byte offset `off` of `b`.
pub fn read_u32_le(b: &Vec<u8>, off: usize) -> (r: u32)
    requires
        off + 4 <= b@.len(),
    ensures
        r == le32_at(b@, off as int),
{
    let n = b.len();
    proof {
        assert(off + 4 <= n);
    }
    let b0 = b[off];
    let b1 = b[off + 1];
    let b2 = b[off + 2];
    let b3 = b[off + 3];
    (b0 as u32) | ((b1 as u32) << 8) | ((b2 as u32) << 16) | ((b3 as u32) << 24)
}

/// Appends every byte of `src` to `out`.
pub fn append_bytes(out: &mut Vec<u8>, src: &Vec<u8>)
    ensures
        final(out)@ == old(out)@ + src@,
{
    let n = src.len();
    let mut i: usize = 0;
    while i < n
        invariant
            n == src@.len(),
            0 <= i <= n,
            out@ == old(out)@ + src@.take(i as int),
        decreases n - i,
    {
        let b = src[i];
        out.push(b);
        proof {
            assert(out@ =~= old(out)@ + src@.take(i + 1int));
        }
        i = i + 1;
    }
    proof {
        assert(src@.take(n as int) =~= src@);
    }
}

/// Appends the first `n` bytes of `src` to `out`.
pub fn append_prefix(out: &mut Vec<u8>, src: &Vec<u8>, n: usize)
    requires
        n <= src@.len(),
    ensures
        final(out)@ == old(out)@ + src@.take(n as int),
{
    let mut i: usize = 0;
    while i < n
        invariant
            n <= src@.len(),
            0 <= i <= n,
            out@ == old(out)@ + src@.take(i as int),
        decreases n - i,
    {
        let b = src[i];
        out.push(b);
        proof {
            assert(out@ =~= old(out)@ + src@.take(i + 1int));
        }
        i = i + 1;
    }
}

/// The tail of `v` starting at `start`, as an owned buffer.
pub(crate) fn tail_from(v: &Vec<u8>, start: usize) -> (r: Vec<u8>)
    requires
        start <= v@.len(),
    ensures
        r@ == v@.skip(start as int),
{
    let n = v.len();
    let mut out: Vec<u8> = Vec::new();
    let mut i: usize = start;
    while i < n
        invariant
            n == v@.len(),
            start <= i <= n,
            out@ == v@.subrange(start as int, i as int),
        decreases n - i,
    {
        let b = v[i];
        out.push(b);
        proof {
            assert(out@ =~= v@.subrange(start as int, i + 1int));
        }
        i = i + 1;
    }
    proof {
        assert(out@ =~= v@.skip(start as int));
    }
    out
}

/// The declared info-header size of a DIB payload.
pub open spec fn dib_header_size(d: Seq<u8>) -> u32 {
    le32_at(d, 0)
}

/// The declared pixel-data size of a DIB payload.
pub open spec fn dib_image_size(d: Seq<u8>) -> u32 {
    le32_at(d, 20)
}

/// The pixel-data offset of the file header synthesized for a DIB payload:
/// the 14-byte file header plus the declared info-header size.
pub open spec fn dib_file_offset(d: Seq<u8>) -> u32 {
    14u32.wrapping_add(dib_header_size(d))
}

/// The total file size of the file header synthesized for a DIB payload:
/// the pixel-data offset plus the declared pixel-data size.
pub open spec fn dib_file_size(d: Seq<u8>) -> u32 {
    dib_file_offset(d).wrapping_add(dib_image_size(d))
}

/// How many payload bytes the synthesized stream carries: the declared
/// header size plus the declared image size, clamped to what the payload
/// actually holds (clipboard allocations routinely carry slack past the
/// declared pixel bytes, and a capturer may declare more than is there).
pub open spec fn dib_body_len(d: Seq<u8>) -> int {
    let declared = dib_header_size(d) + dib_image_size(d);
    if declared <= d.len() {
        declared as int
    } else {
        d.len() as int
    }
}

/// The BMP stream synthesized for a DIB payload: signature, declared total
/// size, two reserved fields, pixel-data offset, then the declared header
/// and pixel bytes of the payload.
pub open spec fn bmp_of_dib(d: Seq<u8>) -> Seq<u8> {
    le16(BMP_SIGNATURE) + le32(dib_file_size(d)) + le16(0) + le16(0) + le32(dib_file_offset(d))
        + d.take(dib_body_len(d))
}

/// A device-independent bitmap payload taken off the clipboard.
pub struct Image {
    /// The DIB payload: info header, then palette entries and pixel rows.
    pub dib: Vec<u8>,
}

impl Image {
    /// Whether the payload is large enough to carry the two declared fields
    /// this codec reads (constructors establish this; methods rely on it).
    pub open spec fn wf(&self) -> bool {
        self.dib@.len() >= 24
    }

    /// Takes the device-independent bitmap payload stored under `format`
    /// (the plain or the extended device-independent format) off the
    /// clipboard.
    ///
    /// Requires an open session; fails with the invalid-data code only when
    /// the stored payload is too short to carry the declared header-size and
    /// image-size fields. Everything the fields declare is trusted as-is.
    pub fn from_clipboard(cb: &ClipboardState, format: u32) -> (r: SysResult<Image>)
        requires
            cb@.wf(),
        ensures
            !cb@.is_open ==> r == Err::<Image, ErrorKind>(
                ErrorKind::PlatformFailure(ERROR_CLIPBOARD_NOT_OPEN),
            ),
            cb@.is_open && !cb@.has(format) ==> r == Err::<Image, ErrorKind>(
                ErrorKind::FormatUnavailable,
            ),
            cb@.is_open && cb@.has(format) && cb@.payload(format).len() < 24 ==> r == Err::<
                Image,
                ErrorKind,
            >(ErrorKind::PlatformFailure(ERROR_INVALID_DATA)),
            cb@.is_open && cb@.has(format) && cb@.payload(format).len() >= 24 ==> (r matches Ok(
                img,
            ) && img.dib@ == cb@.payload(format) && img.wf()),
    {
        if !cb.is_open {
            return Err(ErrorKind::PlatformFailure(ERROR_CLIPBOARD_NOT_OPEN));
        }
        let mut payload: Vec<u8> = Vec::new();
        match crate::raw::get_vec(cb, format, &mut payload) {
            Ok(_) => {},
            Err(e) => {
                return Err(e);
            },
        }
        proof {
            assert(payload@ =~= cb@.payload(format));
        }
        if payload.len() < 24 {
            return Err(ErrorKind::PlatformFailure(ERROR_INVALID_DATA));
        }
        Ok(Image { dib: payload })
    }

    /// Raw payload bytes, exactly as stored on the clipboard.
    pub fn as_bytes(&self) -> (r: &Vec<u8>)
        ensures
            r@ == self.dib@,
    {
        &self.dib
    }

    /// The declared size of the synthesized BMP stream, header included:
    /// the pixel offset plus the declared image size. Equals the stream's
    /// actual length whenever the declared sizes fit the field width and the
    /// payload holds at least the declared bytes.
    pub fn size(&self) -> (r: usize)
        requires
            self.wf(),
        ensures
            r == dib_file_size(self.dib@),
            14 + dib_header_size(self.dib@) + dib_image_size(self.dib@) <= 0xFFFF_FFFF
                && dib_header_size(self.dib@) + dib_image_size(self.dib@) <= self.dib@.len()
                ==> r == bmp_of_dib(self.dib@).len(),
    {
        let header_size = read_u32_le(&self.dib, 0);
        let image_size = read_u32_le(&self.dib, 20);
        let r = 14u32.wrapping_add(header_size).wrapping_add(image_size) as usize;
        proof {
            assert(dib_file_size(self.dib@) == 14u32.wrapping_add(header_size).wrapping_add(
                image_size,
            ));
        }
        r
    }

    /// Appends the synthesized BMP stream to `storage`: the 14-byte file
    /// header, then the declared header and pixel bytes of the payload.
    /// Returns the stream's declared size.
    pub fn write(&self, storage: &mut Vec<u8>) -> (r: SysResult<usize>)
        requires
            self.wf(),
        ensures
            final(storage)@ == old(storage)@ + bmp_of_dib(self.dib@),
            r matches Ok(n) && n == dib_file_size(self.dib@),
            14 + dib_header_size(self.dib@) + dib_image_size(self.dib@) <= 0xFFFF_FFFF
                && dib_header_size(self.dib@) + dib_image_size(self.dib@) <= self.dib@.len()
                ==> (r matches Ok(n) && n == bmp_of_dib(self.dib@).len()),
    {
        let header_size = read_u32_le(&self.dib, 0);
        let image_size = read_u32_le(&self.dib, 20);
        let offset = 14u32.wrapping_add(header_size);
        let total = offset.wrapping_add(image_size);
        let declared: u64 = header_size as u64 + image_size as u64;
        let body_len: usize = if declared <= self.dib.len() as u64 {
            declared as usize
        } else {
            self.dib.len()
        };
        proof {
            assert(body_len == dib_body_len(self.dib@));
        }
        push_le16(storage, BMP_SIGNATURE);
        push_le32(storage, total);
        push_le16(storage, 0);
        push_le16(storage, 0);
        push_le32(storage, offset);
        append_prefix(storage, &self.dib, body_len);
        proof {
            assert(storage@ =~= old(storage)@ + bmp_of_dib(self.dib@));
        }
        let size = self.size();
        Ok(size)
    }

    /// The synthesized BMP stream as an owned buffer.
    pub fn to_vec(&self) -> (r: Vec<u8>)
        requires
            self.wf(),
        ensures
            r@ == bmp_of_dib(self.dib@),
    {
        let mut data: Vec<u8> = Vec::new();
        let _ = self.write(&mut data);
        proof {
            assert(Seq::<u8>::empty() + bmp_of_dib(self.dib@) =~= bmp_of_dib(self.dib@));
        }
        data
    }
}

} // verus!
