//! Standard clipboard format codes and typed format front-ends.
//!
//! The numeric constants are the platform's predefined format codes; codes in
//! `0xC000..=0xFFFF` are handed out by name registration, and the two dynamic
//! ranges (GDI objects, private formats) never resolve to a registered name.

use vstd::prelude::*;

use crate::SysResult;
use crate::error::ErrorKind;
use crate::error::ERROR_CLIPBOARD_NOT_OPEN;
use crate::error::ERROR_INVALID_DATA;
use crate::state::ClipboardState;
use crate::txt::trim_trailing_nul;
use crate::txt::decode_utf16_lossy;
use crate::txt::units_of_le_bytes;
use crate::txt::wide_payload;

verus! {

/// Text in the process's code page, NUL-terminated.
pub const CF_TEXT: u32 = 1;

/// A device-dependent bitmap handle.
pub const CF_BITMAP: u32 = 2;

/// A metafile picture.
pub const CF_METAFILEPICT: u32 = 3;

/// Symbolic-link format.
pub const CF_SYLK: u32 = 4;

/// Data interchange format.
pub const CF_DIF: u32 = 5;

/// A tagged-image-file-format picture.
pub const CF_TIFF: u32 = 6;

/// Text in the OEM code page, NUL-terminated.
pub const CF_OEMTEXT: u32 = 7;

/// A device-independent bitmap (header, optional palette, pixel rows).
pub const CF_DIB: u32 = 8;

/// A color-palette handle.
pub const CF_PALETTE: u32 = 9;

/// Pen-computing data.
pub const CF_PENDATA: u32 = 10;

/// Audio data in RIFF framing.
pub const CF_RIFF: u32 = 11;

/// Audio data in plain wave framing.
pub const CF_WAVE: u32 = 12;

/// UTF-16 text, NUL-terminated: the canonical text format.
pub const CF_UNICODETEXT: u32 = 13;

/// An enhanced metafile handle.
pub const CF_ENHMETAFILE: u32 = 14;

/// A list of dropped file-system paths.
pub const CF_HDROP: u32 = 15;

/// The locale identifier attached to the stored text.
pub const CF_LOCALE: u32 = 16;

/// A device-independent bitmap with an extended (version five) header.
pub const CF_DIBV5: u32 = 17;

/// Owner-rendered content: the owner window draws it on demand.
pub const CF_OWNERDISPLAY: u32 = 0x0080;

/// Private display variant of text.
pub const CF_DSPTEXT: u32 = 0x0081;

/// Private display variant of a bitmap.
pub const CF_DSPBITMAP: u32 = 0x0082;

/// Private display variant of a metafile picture.
pub const CF_DSPMETAFILEPICT: u32 = 0x0083;

/// Private display variant of an enhanced metafile.
pub const CF_DSPENHMETAFILE: u32 = 0x008E;

/// First code of the private format range.
pub const CF_PRIVATEFIRST: u32 = 0x0200;

/// Last code of the private format range.
pub const CF_PRIVATELAST: u32 = 0x02FF;

/// First code of the GDI-object format range.
pub const CF_GDIOBJFIRST: u32 = 0x0300;

/// Last code of the GDI-object format range.
pub const CF_GDIOBJLAST: u32 = 0x03FF;

/// Front-end for the canonical text format: UTF-8 on the caller's side,
/// NUL-terminated UTF-16 on the clipboard.
pub struct Unicode;

impl Unicode {
    /// Reads the text payload, appending its decoded characters (with the
    /// single trailing NUL terminator trimmed) to `out`; returns the UTF-8
    /// bytes appended by this call.
    pub fn read_clipboard(&self, cb: &ClipboardState, out: &mut String) -> (r: SysResult<usize>)
        requires
            cb@.wf(),
        ensures
            !cb@.is_open ==> r == Err::<usize, ErrorKind>(
                ErrorKind::PlatformFailure(ERROR_CLIPBOARD_NOT_OPEN),
            ) && final(out)@ == old(out)@,
            cb@.is_open && !cb@.has(CF_UNICODETEXT) ==> r == Err::<usize, ErrorKind>(
                ErrorKind::FormatUnavailable,
            ) && final(out)@ == old(out)@,
            cb@.is_open && cb@.has(CF_UNICODETEXT) ==> ({
                let units = units_of_le_bytes(cb@.payload(CF_UNICODETEXT));
                if units.len() == 0 {
                    r == Err::<usize, ErrorKind>(ErrorKind::EncodingFailure) && final(out)@
                        == old(out)@
                } else {
                    let appended = trim_trailing_nul(decode_utf16_lossy(units));
                    &&& r matches Ok(n) && n == vstd::utf8::encode_utf8(appended).len()
                    &&& final(out)@ == old(out)@ + appended
                }
            }),
    {
        crate::raw::get_string(cb, out)
    }

    /// Empties the clipboard and stores `data` as its text payload.
    pub fn write_clipboard(&self, cb: &mut ClipboardState, data: &str) -> (r: SysResult<()>)
        requires
            old(cb)@.wf(),
            data@.len() > 0,
        ensures
            final(cb)@.wf(),
            !old(cb)@.is_open ==> r == Err::<(), ErrorKind>(
                ErrorKind::PlatformFailure(ERROR_CLIPBOARD_NOT_OPEN),
            ) && final(cb)@ == old(cb)@,
            old(cb)@.is_open ==> r == Ok::<(), ErrorKind>(()) && final(cb)@ == old(
                cb,
            )@.emptied().with_entry(CF_UNICODETEXT, wide_payload(data@)),
    {
        crate::raw::set_string(cb, data)
    }
}

/// Front-end for arbitrary bytes under a chosen format code.
pub struct RawData(pub u32);

impl RawData {
    /// Appends the whole payload stored under this format to `out`; returns
    /// the number of bytes appended.
    pub fn read_clipboard(&self, cb: &ClipboardState, out: &mut Vec<u8>) -> (r: SysResult<usize>)
        requires
            cb@.wf(),
        ensures
            !cb@.is_open ==> r == Err::<usize, ErrorKind>(
                ErrorKind::PlatformFailure(ERROR_CLIPBOARD_NOT_OPEN),
            ) && final(out)@ == old(out)@,
            cb@.is_open && !cb@.has(self.0) ==> r == Err::<usize, ErrorKind>(
                ErrorKind::FormatUnavailable,
            ) && final(out)@ == old(out)@,
            cb@.is_open && cb@.has(self.0) ==> ({
                &&& r matches Ok(n) && n == cb@.payload(self.0).len()
                &&& final(out)@ == old(out)@ + cb@.payload(self.0)
            }),
    {
        crate::raw::get_vec(cb, self.0, out)
    }

    /// Empties the clipboard and stores `data` under this format.
    pub fn write_clipboard(&self, cb: &mut ClipboardState, data: &Vec<u8>) -> (r: SysResult<()>)
        requires
            old(cb)@.wf(),
            data@.len() > 0,
        ensures
            final(cb)@.wf(),
            !old(cb)@.is_open ==> r == Err::<(), ErrorKind>(
                ErrorKind::PlatformFailure(ERROR_CLIPBOARD_NOT_OPEN),
            ) && final(cb)@ == old(cb)@,
            old(cb)@.is_open && self.0 == 0 ==> r == Err::<(), ErrorKind>(
                ErrorKind::PlatformFailure(crate::error::ERROR_INVALID_PARAMETER),
            ) && final(cb)@ == old(cb)@.emptied(),
            old(cb)@.is_open && self.0 != 0 ==> r == Ok::<(), ErrorKind>(()) && final(cb)@
                == old(cb)@.emptied().with_entry(self.0, data@),
    {
        crate::raw::set(cb, self.0, data)
    }
}

/// Front-end for bitmaps, spoken as complete BMP byte streams.
pub struct Bitmap;

impl Bitmap {
    /// Renders the stored device-independent bitmap as a BMP stream and
    /// appends it to `out`; returns the number of bytes appended.
    pub fn read_clipboard(&self, cb: &ClipboardState, out: &mut Vec<u8>) -> (r: SysResult<usize>)
        requires
            cb@.wf(),
        ensures
            !cb@.is_open ==> r == Err::<usize, ErrorKind>(
                ErrorKind::PlatformFailure(ERROR_CLIPBOARD_NOT_OPEN),
            ) && final(out)@ == old(out)@,
            cb@.is_open && !cb@.has(CF_BITMAP) ==> r == Err::<usize, ErrorKind>(
                ErrorKind::FormatUnavailable,
            ) && final(out)@ == old(out)@,
            cb@.is_open && cb@.has(CF_BITMAP) && cb@.payload(CF_BITMAP).len() < 40 ==> r == Err::<
                usize,
                ErrorKind,
            >(ErrorKind::PlatformFailure(ERROR_INVALID_DATA)) && final(out)@ == old(out)@,
            cb@.is_open && cb@.has(CF_BITMAP) && cb@.payload(CF_BITMAP).len() >= 40 ==> ({
                let stream = crate::image::render_dib(cb@.payload(CF_BITMAP));
                &&& r matches Ok(n) && n == stream.len()
                &&& final(out)@ == old(out)@ + stream
            }),
    {
        let img = match crate::image::Image::from_clipboard(cb) {
            Ok(img) => img,
            Err(e) => {
                return Err(e);
            },
        };
        crate::dib::append_bytes(out, &img.bytes);
        Ok(img.bytes.len())
    }

    /// Parses the BMP stream's file header and stores everything after it as
    /// the device-independent bitmap payload, emptying the clipboard first.
    pub fn write_clipboard(&self, cb: &mut ClipboardState, data: &Vec<u8>) -> (r: SysResult<()>)
        requires
            old(cb)@.wf(),
        ensures
            final(cb)@.wf(),
            data@.len() < 54 ==> r == Err::<(), ErrorKind>(
                ErrorKind::PlatformFailure(ERROR_INVALID_DATA),
            ) && final(cb)@ == old(cb)@,
            data@.len() >= 54 && crate::dib::le32_at(data@, 10) > data@.len() ==> r == Err::<
                (),
                ErrorKind,
            >(ErrorKind::PlatformFailure(ERROR_INVALID_DATA)) && final(cb)@ == old(cb)@,
            data@.len() >= 54 && crate::dib::le32_at(data@, 10) <= data@.len() && !old(
                cb,
            )@.is_open ==> r == Err::<(), ErrorKind>(
                ErrorKind::PlatformFailure(ERROR_CLIPBOARD_NOT_OPEN),
            ) && final(cb)@ == old(cb)@,
            data@.len() >= 54 && crate::dib::le32_at(data@, 10) <= data@.len() && old(
                cb,
            )@.is_open ==> r == Ok::<(), ErrorKind>(()) && final(cb)@ == old(
                cb,
            )@.emptied().with_entry(CF_BITMAP, data@.skip(14)),
    {
        let img = crate::image::Image { bytes: crate::utils::clone_bytes(data) };
        img.write_to_clipboard(cb)
    }
}

} // verus!
