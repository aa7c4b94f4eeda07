//! Raw clipboard operations.
//!
//! Every operation takes the clipboard state explicitly. Mutating operations
//! demand an open session and fail deterministically without one; the
//! contracts say exactly which payloads are stored afterwards.

use vstd::prelude::*;

use crate::SysResult;
use crate::error::ErrorKind;
use crate::error::ERROR_ACCESS_DENIED;
use crate::error::ERROR_CLIPBOARD_NOT_OPEN;
use crate::error::ERROR_INVALID_PARAMETER;
use crate::state::CUSTOM_FORMAT_FIRST;
use crate::state::CUSTOM_FORMAT_LAST;
use crate::state::ClipboardState;
use crate::state::Entry;
use crate::state::lemma_with_entry;
use crate::txt::before_nul_units;
use crate::txt::decode_utf16_lossy;
use crate::txt::trim_trailing_nul;
use crate::txt::decode_wide_append;
use crate::txt::encode_wide;
use crate::txt::le_bytes_vec;
use crate::txt::units_from_le_bytes;
use crate::txt::units_of_le_bytes;
use crate::txt::wide_payload;
use crate::txt::reg_name_units;
use crate::utils::RawMem;
use crate::utils::clone_bytes;
use crate::utils::clone_units;
use vstd::string::StringExecFns;

verus! {

/// Opens the clipboard for the calling session.
///
/// Fails when the clipboard is already held; on success the clipboard is
/// exclusively owned until [`close`] is called.
pub fn open(cb: &mut ClipboardState) -> (r: SysResult<()>)
    ensures
        old(cb)@.is_open ==> r == Err::<(), ErrorKind>(
            ErrorKind::PlatformFailure(ERROR_ACCESS_DENIED),
        ) && final(cb)@ == old(cb)@,
        !old(cb)@.is_open ==> r == Ok::<(), ErrorKind>(()) && final(cb)@ == (
        crate::state::ClipboardModel { is_open: true, ..old(cb)@ }),
        old(cb)@.wf() ==> final(cb)@.wf(),
{
    if cb.is_open {
        Err(ErrorKind::PlatformFailure(ERROR_ACCESS_DENIED))
    } else {
        cb.is_open = true;
        Ok(())
    }
}

/// Closes the clipboard; valid only after a successful [`open`].
pub fn close(cb: &mut ClipboardState) -> (r: SysResult<()>)
    ensures
        !old(cb)@.is_open ==> r == Err::<(), ErrorKind>(
            ErrorKind::PlatformFailure(ERROR_CLIPBOARD_NOT_OPEN),
        ) && final(cb)@ == old(cb)@,
        old(cb)@.is_open ==> r == Ok::<(), ErrorKind>(()) && final(cb)@ == (
        crate::state::ClipboardModel { is_open: false, ..old(cb)@ }),
        old(cb)@.wf() ==> final(cb)@.wf(),
{
    if !cb.is_open {
        Err(ErrorKind::PlatformFailure(ERROR_CLIPBOARD_NOT_OPEN))
    } else {
        cb.is_open = false;
        Ok(())
    }
}

/// Empties the clipboard: every stored payload is discarded and the change
/// counter advances. Requires an open session.
pub fn empty(cb: &mut ClipboardState) -> (r: SysResult<()>)
    ensures
        !old(cb)@.is_open ==> r == Err::<(), ErrorKind>(
            ErrorKind::PlatformFailure(ERROR_CLIPBOARD_NOT_OPEN),
        ) && final(cb)@ == old(cb)@,
        old(cb)@.is_open ==> r == Ok::<(), ErrorKind>(()) && final(cb)@ == old(cb)@.emptied(),
        old(cb)@.wf() ==> final(cb)@.wf(),
{
    if !cb.is_open {
        Err(ErrorKind::PlatformFailure(ERROR_CLIPBOARD_NOT_OPEN))
    } else {
        cb.entries.clear();
        bump_change_counter(cb);
        proof {
            assert(cb@.entries =~= old(cb)@.emptied().entries);
            assert(cb@ =~= old(cb)@.emptied());
        }
        Ok(())
    }
}

/// The clipboard change counter, or `None` when it cannot be read (the
/// platform reports zero in that case).
pub fn seq_num(cb: &ClipboardState) -> (r: Option<u32>)
    ensures
        r == (if cb@.seq_number == 0 {
            None::<u32>
        } else {
            Some(cb@.seq_number)
        }),
{
    if cb.seq_number == 0 {
        None
    } else {
        Some(cb.seq_number)
    }
}

/// Whether a payload is currently stored under `format`.
pub fn is_format_avail(cb: &ClipboardState, format: u32) -> (r: bool)
    ensures
        r == cb@.has(format),
{
    cb.find_format(format).is_some()
}

/// The number of formats currently on the clipboard.
pub fn count_formats(cb: &ClipboardState) -> (r: Option<usize>)
    ensures
        r matches Some(n) && n == cb@.entries.len(),
{
    Some(cb.entries.len())
}

/// Size in bytes of the payload stored under `format`, if the session is
/// open and the format is present.
pub fn size(cb: &ClipboardState, format: u32) -> (r: Option<usize>)
    requires
        cb@.wf(),
    ensures
        r is Some <==> (cb@.is_open && cb@.has(format)),
        r matches Some(n) ==> n == cb@.payload(format).len(),
{
    if !cb.is_open {
        return None;
    }
    match cb.find_format(format) {
        Some(i) => {
            proof {
                lemma_found_payload(cb@, format, i as int);
            }
            Some(cb.entries[i].data.len())
        },
        None => None,
    }
}

/// Copies at most `out.len()` bytes of the payload stored under `format`
/// into the front of `out` — silent truncation, never an error. The length
/// of `out` is left unchanged; the bytes past the copied prefix keep their
/// old values. Returns the number of bytes copied.
pub fn get(cb: &ClipboardState, format: u32, out: &mut Vec<u8>) -> (r: SysResult<usize>)
    requires
        cb@.wf(),
    ensures
        !cb@.is_open ==> r == Err::<usize, ErrorKind>(
            ErrorKind::PlatformFailure(ERROR_CLIPBOARD_NOT_OPEN),
        ) && final(out)@ == old(out)@,
        cb@.is_open && !cb@.has(format) ==> r == Err::<usize, ErrorKind>(
            ErrorKind::FormatUnavailable,
        ) && final(out)@ == old(out)@,
        cb@.is_open && cb@.has(format) ==> ({
            let data = cb@.payload(format);
            let k = if data.len() <= old(out)@.len() {
                data.len() as int
            } else {
                old(out)@.len() as int
            };
            &&& r matches Ok(n) && n == k
            &&& final(out)@ == data.take(k) + old(out)@.skip(k)
        }),
{
    if !cb.is_open {
        return Err(ErrorKind::PlatformFailure(ERROR_CLIPBOARD_NOT_OPEN));
    }
    let i = match cb.find_format(format) {
        Some(i) => i,
        None => {
            return Err(ErrorKind::FormatUnavailable);
        },
    };
    proof {
        lemma_found_payload(cb@, format, i as int);
    }
    let mut mem = RawMem::from_borrowed(clone_bytes(&cb.entries[i].data));
    let _ = mem.lock();
    let data = mem.get();
    let k = if data.len() <= out.len() {
        data.len()
    } else {
        out.len()
    };
    let mut j: usize = 0;
    while j < k
        invariant
            0 <= j <= k,
            k <= data@.len(),
            k <= out@.len(),
            out@.len() == old(out)@.len(),
            forall|t: int| 0 <= t < j ==> out@[t] == data@[t],
            forall|t: int| j <= t < out@.len() ==> out@[t] == old(out)@[t],
        decreases k - j,
    {
        let b = data[j];
        out[j] = b;
        j = j + 1;
    }
    proof {
        assert(out@ =~= cb@.payload(format).take(k as int) + old(out)@.skip(k as int));
    }
    Ok(k)
}

/// Appends the whole payload stored under `format` to `out`, growing it as
/// needed and preserving its existing content. Returns the number of bytes
/// appended.
pub fn get_vec(cb: &ClipboardState, format: u32, out: &mut Vec<u8>) -> (r: SysResult<usize>)
    requires
        cb@.wf(),
    ensures
        !cb@.is_open ==> r == Err::<usize, ErrorKind>(
            ErrorKind::PlatformFailure(ERROR_CLIPBOARD_NOT_OPEN),
        ) && final(out)@ == old(out)@,
        cb@.is_open && !cb@.has(format) ==> r == Err::<usize, ErrorKind>(
            ErrorKind::FormatUnavailable,
        ) && final(out)@ == old(out)@,
        cb@.is_open && cb@.has(format) ==> ({
            &&& r matches Ok(n) && n == cb@.payload(format).len()
            &&& final(out)@ == old(out)@ + cb@.payload(format)
        }),
{
    if !cb.is_open {
        return Err(ErrorKind::PlatformFailure(ERROR_CLIPBOARD_NOT_OPEN));
    }
    let i = match cb.find_format(format) {
        Some(i) => i,
        None => {
            return Err(ErrorKind::FormatUnavailable);
        },
    };
    proof {
        lemma_found_payload(cb@, format, i as int);
    }
    let mut mem = RawMem::from_borrowed(clone_bytes(&cb.entries[i].data));
    let _ = mem.lock();
    let data = mem.get();
    let n = data.len();
    let mut j: usize = 0;
    while j < n
        invariant
            0 <= j <= n,
            n == data@.len(),
            out@ == old(out)@ + data@.take(j as int),
        decreases n - j,
    {
        let b = data[j];
        out.push(b);
        proof {
            assert(out@ =~= old(out)@ + data@.take(j + 1int));
        }
        j = j + 1;
    }
    proof {
        assert(data@.take(n as int) =~= data@);
    }
    Ok(n)
}

/// Attaches the content of an unlocked memory block to the clipboard under
/// `format`, replacing any payload already stored under it. On success the
/// clipboard owns the block's content; the caller must then give the block
/// up with [`RawMem::release`] and never touch it again.
fn attach(cb: &mut ClipboardState, format: u32, mem: &RawMem) -> (r: SysResult<()>)
    requires
        old(cb)@.wf(),
        !mem.locked,
        mem.bytes@.len() > 0,
    ensures
        final(cb)@.wf(),
        !old(cb)@.is_open ==> r == Err::<(), ErrorKind>(
            ErrorKind::PlatformFailure(ERROR_CLIPBOARD_NOT_OPEN),
        ) && final(cb)@ == old(cb)@,
        old(cb)@.is_open && format == 0 ==> r == Err::<(), ErrorKind>(
            ErrorKind::PlatformFailure(ERROR_INVALID_PARAMETER),
        ) && final(cb)@ == old(cb)@,
        old(cb)@.is_open && format != 0 ==> r == Ok::<(), ErrorKind>(()) && final(cb)@ == old(
            cb,
        )@.with_entry(format, mem.bytes@),
{
    if !cb.is_open {
        return Err(ErrorKind::PlatformFailure(ERROR_CLIPBOARD_NOT_OPEN));
    }
    if format == 0 {
        return Err(ErrorKind::PlatformFailure(ERROR_INVALID_PARAMETER));
    }
    proof {
        lemma_with_entry(old(cb)@, format, mem.bytes@);
    }
    match cb.find_format(format) {
        Some(i) => {
            proof {
                lemma_found_index(cb@, format, i as int);
            }
            cb.entries[i] = Entry { format, data: clone_bytes(&mem.bytes) };
            bump_change_counter(cb);
            proof {
                assert(cb@.entries =~= old(cb)@.with_entry(format, mem.bytes@).entries);
                assert(cb@ =~= old(cb)@.with_entry(format, mem.bytes@));
            }
        },
        None => {
            cb.entries.push(Entry { format, data: clone_bytes(&mem.bytes) });
            bump_change_counter(cb);
            proof {
                assert(cb@.entries =~= old(cb)@.with_entry(format, mem.bytes@).entries);
                assert(cb@ =~= old(cb)@.with_entry(format, mem.bytes@));
            }
        },
    }
    Ok(())
}

/// Stores `data` under `format` without emptying the clipboard first: other
/// formats stay untouched, an existing payload under `format` is replaced.
pub fn set_without_clear(cb: &mut ClipboardState, format: u32, data: &Vec<u8>) -> (r: SysResult<
    (),
>)
    requires
        old(cb)@.wf(),
        data@.len() > 0,
    ensures
        final(cb)@.wf(),
        !old(cb)@.is_open ==> r == Err::<(), ErrorKind>(
            ErrorKind::PlatformFailure(ERROR_CLIPBOARD_NOT_OPEN),
        ) && final(cb)@ == old(cb)@,
        old(cb)@.is_open && format == 0 ==> r == Err::<(), ErrorKind>(
            ErrorKind::PlatformFailure(ERROR_INVALID_PARAMETER),
        ) && final(cb)@ == old(cb)@,
        old(cb)@.is_open && format != 0 ==> r == Ok::<(), ErrorKind>(()) && final(cb)@ == old(
            cb,
        )@.with_entry(format, data@),
{
    let size = data.len();
    let mut mem = match RawMem::new_global_mem(size) {
        Ok(m) => m,
        Err(e) => {
            return Err(e);
        },
    };
    let _ = mem.lock();
    mem.write_prefix(data);
    mem.unlock();
    proof {
        assert(mem.bytes@ =~= data@);
    }
    match attach(cb, format, &mem) {
        Ok(()) => {
            mem.release();
            Ok(())
        },
        Err(e) => Err(e),
    }
}

/// Empties the clipboard, then stores `data` as its only payload, under
/// `format`. On attach failure the locally held memory is freed and the
/// error surfaced.
pub fn set(cb: &mut ClipboardState, format: u32, data: &Vec<u8>) -> (r: SysResult<()>)
    requires
        old(cb)@.wf(),
        data@.len() > 0,
    ensures
        final(cb)@.wf(),
        !old(cb)@.is_open ==> r == Err::<(), ErrorKind>(
            ErrorKind::PlatformFailure(ERROR_CLIPBOARD_NOT_OPEN),
        ) && final(cb)@ == old(cb)@,
        old(cb)@.is_open && format == 0 ==> r == Err::<(), ErrorKind>(
            ErrorKind::PlatformFailure(ERROR_INVALID_PARAMETER),
        ) && final(cb)@ == old(cb)@.emptied(),
        old(cb)@.is_open && format != 0 ==> r == Ok::<(), ErrorKind>(()) && final(cb)@ == old(
            cb,
        )@.emptied().with_entry(format, data@),
{
    let size = data.len();
    let mut mem = match RawMem::new_global_mem(size) {
        Ok(m) => m,
        Err(e) => {
            return Err(e);
        },
    };
    let _ = mem.lock();
    mem.write_prefix(data);
    mem.unlock();
    proof {
        assert(mem.bytes@ =~= data@);
    }
    let _ = empty(cb);
    match attach(cb, format, &mem) {
        Ok(()) => {
            mem.release();
            Ok(())
        },
        Err(e) => Err(e),
    }
}

/// Transcodes `data` to UTF-16, appends one terminating zero unit, empties
/// the clipboard, and stores the little-endian byte image of the units as
/// the only payload, under the canonical text format.
pub fn set_string(cb: &mut ClipboardState, data: &str) -> (r: SysResult<()>)
    requires
        old(cb)@.wf(),
        data@.len() > 0,
    ensures
        final(cb)@.wf(),
        !old(cb)@.is_open ==> r == Err::<(), ErrorKind>(
            ErrorKind::PlatformFailure(ERROR_CLIPBOARD_NOT_OPEN),
        ) && final(cb)@ == old(cb)@,
        old(cb)@.is_open ==> r == Ok::<(), ErrorKind>(()) && final(cb)@ == old(
            cb,
        )@.emptied().with_entry(crate::formats::CF_UNICODETEXT, wide_payload(data@)),
{
    let mut units = encode_wide(data);
    units.push(0u16);
    let bytes = le_bytes_vec(&units);
    proof {
        assert(units@ =~= crate::txt::encode_utf16(data@).push(0u16));
        assert(bytes@ == wide_payload(data@));
        assert(bytes@.len() == 2 * units@.len());
    }
    set(cb, crate::formats::CF_UNICODETEXT, &bytes)
}

/// Reads the canonical text payload, decodes its UTF-16 units lossily,
/// trims the single trailing NUL terminator if present, and appends the
/// characters to `out` — so repeated calls into one buffer concatenate.
/// Returns the number of UTF-8 bytes appended by this call alone.
pub fn get_string(cb: &ClipboardState, out: &mut String) -> (r: SysResult<usize>)
    requires
        cb@.wf(),
    ensures
        !cb@.is_open ==> r == Err::<usize, ErrorKind>(
            ErrorKind::PlatformFailure(ERROR_CLIPBOARD_NOT_OPEN),
        ) && final(out)@ == old(out)@,
        cb@.is_open && !cb@.has(crate::formats::CF_UNICODETEXT) ==> r == Err::<usize, ErrorKind>(
            ErrorKind::FormatUnavailable,
        ) && final(out)@ == old(out)@,
        cb@.is_open && cb@.has(crate::formats::CF_UNICODETEXT) ==> ({
            let units = units_of_le_bytes(cb@.payload(crate::formats::CF_UNICODETEXT));
            if units.len() == 0 {
                r == Err::<usize, ErrorKind>(ErrorKind::EncodingFailure) && final(out)@ == old(
                    out,
                )@
            } else {
                let appended = trim_trailing_nul(decode_utf16_lossy(units));
                &&& r matches Ok(n) && n == vstd::utf8::encode_utf8(appended).len()
                &&& final(out)@ == old(out)@ + appended
            }
        }),
{
    if !cb.is_open {
        return Err(ErrorKind::PlatformFailure(ERROR_CLIPBOARD_NOT_OPEN));
    }
    let i = match cb.find_format(crate::formats::CF_UNICODETEXT) {
        Some(i) => i,
        None => {
            return Err(ErrorKind::FormatUnavailable);
        },
    };
    proof {
        lemma_found_payload(cb@, crate::formats::CF_UNICODETEXT, i as int);
    }
    let mut mem = RawMem::from_borrowed(clone_bytes(&cb.entries[i].data));
    let _ = mem.lock();
    let mut units = units_from_le_bytes(mem.get());
    if units.len() == 0 {
        return Err(ErrorKind::EncodingFailure);
    }
    let ghost all_units = units@;
    // Drop the single trailing zero unit, if present: decoding then trimming
    // one trailing NUL comes to the same, since a zero unit never pairs.
    if units[units.len() - 1] == 0 {
        let _ = units.pop();
        proof {
            assert(units@ =~= all_units.drop_last());
            assert(all_units =~= units@ + seq![0u16]);
            crate::txt::lemma_decode_append_zero(units@);
            assert(trim_trailing_nul(decode_utf16_lossy(all_units)) =~= decode_utf16_lossy(
                units@,
            ));
        }
    } else {
        proof {
            crate::txt::lemma_decode_no_trailing_nul(all_units);
            assert(trim_trailing_nul(decode_utf16_lossy(all_units)) == decode_utf16_lossy(
                units@,
            ));
        }
    }
    let before = crate::txt::string_byte_len(out);
    decode_wide_append(&units, out);
    let after = crate::txt::string_byte_len(out);
    proof {
        let appended = decode_utf16_lossy(units@);
        crate::txt::lemma_encode_utf8_concat(old(out)@, appended);
        assert(vstd::utf8::encode_utf8(out@).len() == vstd::utf8::encode_utf8(old(out)@).len()
            + vstd::utf8::encode_utf8(appended).len());
    }
    Ok(after - before)
}

/// The format code the enumeration yields after `after`: the first stored
/// format for zero, the successor of `after`'s slot otherwise, and zero when
/// the enumeration is exhausted, `after` is unknown, or no session is open.
pub open spec fn spec_next_format(m: crate::state::ClipboardModel, after: u32) -> u32 {
    if !m.is_open {
        0
    } else if after == 0 {
        if m.entries.len() == 0 {
            0
        } else {
            m.entries[0].0
        }
    } else if m.has(after) {
        if m.index_of_format(after) + 1 < m.entries.len() {
            m.entries[m.index_of_format(after) + 1].0
        } else {
            0
        }
    } else {
        0
    }
}

/// Enumerator over the formats on the clipboard, in attachment order.
///
/// Valid only while a session is open; a closed session ends the enumeration.
pub struct EnumFormats {
    /// The format code the enumeration continues after; zero restarts it.
    pub idx: u32,
}

impl EnumFormats {
    /// Constructs enumerator over all available formats.
    pub fn new() -> (r: EnumFormats)
        ensures
            r.idx == 0,
    {
        EnumFormats { idx: 0 }
    }

    /// Constructs enumerator that starts from `format`.
    pub fn from(format: u32) -> (r: EnumFormats)
        ensures
            r.idx == format,
    {
        EnumFormats { idx: format }
    }

    /// Resets enumerator to list all available formats.
    pub fn reset(&mut self) -> (r: &EnumFormats)
        ensures
            final(self).idx == 0,
            r.idx == 0,
    {
        self.idx = 0;
        self
    }

    /// Advisory size hint for the enumeration: a lower bound of zero, and
    /// the current format count as the upper bound. Reliable only when the
    /// enumeration runs over all formats from the start.
    pub fn size_hint(&self, cb: &ClipboardState) -> (r: (usize, Option<usize>))
        ensures
            r.0 == 0,
            r.1 matches Some(n) && n == cb@.entries.len(),
    {
        (0, count_formats(cb))
    }

    /// The next format on the clipboard, or `None` when the enumeration is
    /// done (or no session is open).
    pub fn next(&mut self, cb: &ClipboardState) -> (r: Option<u32>)
        requires
            cb@.wf(),
        ensures
            final(self).idx == spec_next_format(cb@, old(self).idx),
            r == (if spec_next_format(cb@, old(self).idx) == 0 {
                None::<u32>
            } else {
                Some(spec_next_format(cb@, old(self).idx))
            }),
    {
        if !cb.is_open {
            self.idx = 0;
            return None;
        }
        if self.idx == 0 {
            if cb.entries.len() == 0 {
                self.idx = 0;
                return None;
            }
            self.idx = cb.entries[0].format;
            proof {
                assert(cb@.entries[0].0 != 0);
            }
            return Some(self.idx);
        }
        match cb.find_format(self.idx) {
            Some(i) => {
                proof {
                    lemma_found_index(cb@, old(self).idx, i as int);
                }
                let n = cb.entries.len();
                if i + 1 < n {
                    self.idx = cb.entries[i + 1].format;
                    proof {
                        assert(cb@.entries[i + 1int].0 != 0);
                    }
                    Some(self.idx)
                } else {
                    self.idx = 0;
                    None
                }
            },
            None => {
                self.idx = 0;
                None
            },
        }
    }
}

/// All formats currently on the clipboard, in attachment order. Requires an
/// open session.
pub fn get_clipboard_formats(cb: &ClipboardState) -> (r: SysResult<Vec<u32>>)
    requires
        cb@.wf(),
    ensures
        !cb@.is_open ==> r == Err::<Vec<u32>, ErrorKind>(
            ErrorKind::PlatformFailure(ERROR_CLIPBOARD_NOT_OPEN),
        ),
        cb@.is_open ==> (r matches Ok(v) && v@ == cb@.formats()),
{
    if !cb.is_open {
        return Err(ErrorKind::PlatformFailure(ERROR_CLIPBOARD_NOT_OPEN));
    }
    let mut result: Vec<u32> = Vec::new();
    let mut enumerator = EnumFormats::new();
    let ghost mut i: int = 0;
    proof {
        assert(result@ =~= cb@.formats().take(0));
    }
    loop
        invariant_except_break
            enumerator.idx == (if i == 0 {
                0u32
            } else {
                cb@.entries[i - 1].0
            }),
        invariant
            cb@.wf(),
            cb@.is_open,
            0 <= i <= cb@.entries.len(),
            result@ == cb@.formats().take(i),
        ensures
            result@ == cb@.formats(),
        decreases cb@.entries.len() - i,
    {
        let ghost prev = enumerator.idx;
        match enumerator.next(cb) {
            Some(f) => {
                proof {
                    if i > 0 {
                        assert(cb@.has(prev)) by {
                            assert((#[trigger] cb@.entries[i - 1]).0 == prev);
                        }
                        lemma_found_index(cb@, prev, i - 1);
                        assert(f == cb@.entries[i].0);
                    } else {
                        assert(f == cb@.entries[0].0);
                    }
                }
                result.push(f);
                proof {
                    i = i + 1;
                    assert(result@ =~= cb@.formats().take(i));
                }
            },
            None => {
                proof {
                    if i > 0 {
                        assert(cb@.has(prev)) by {
                            assert((#[trigger] cb@.entries[i - 1]).0 == prev);
                        }
                        lemma_found_index(cb@, prev, i - 1);
                        assert(i == cb@.entries.len());
                    } else {
                        if cb@.entries.len() > 0 {
                            assert(cb@.entries[0].0 != 0);
                        }
                    }
                    assert(result@ =~= cb@.formats());
                }
                break ;
            },
        }
    }
    Ok(result)
}

/// Interns a custom format name handed over as NUL-terminated UTF-16 units
/// and hands back its format code. The same name keeps the same code for the
/// lifetime of the registration table; a fresh name gets the next code of
/// the custom range. Fails on an empty name or a full table.
pub fn register_raw_format(cb: &mut ClipboardState, name: &Vec<u16>) -> (r: Option<u32>)
    requires
        old(cb)@.wf(),
        name@.len() > 0,
        name@.last() == 0u16,
    ensures
        final(cb)@.wf(),
        final(cb)@ == old(cb)@.after_register(before_nul_units(name@)),
        r == old(cb)@.register_result(before_nul_units(name@)),
{
    let n = name.len();
    let mut trimmed: Vec<u16> = Vec::new();
    let mut i: usize = 0;
    while i < n && name[i] != 0
        invariant
            n == name@.len(),
            0 <= i <= n,
            trimmed@ == name@.take(i as int),
            forall|j: int| 0 <= j < i ==> name@[j] != 0u16,
        decreases n - i,
    {
        let u = name[i];
        trimmed.push(u);
        proof {
            assert(trimmed@ =~= name@.take(i + 1int));
        }
        i = i + 1;
    }
    proof {
        assert(!name@.take(i as int).contains(0u16)) by {
            if name@.take(i as int).contains(0u16) {
                let j = choose|j: int|
                    0 <= j < i && name@.take(i as int)[j] == 0u16;
                assert(name@[j] != 0u16);
            }
        }
        assert(name@ =~= name@.take(i as int) + name@.skip(i as int));
        crate::txt::lemma_before_nul_units_concat(name@.take(i as int), name@.skip(i as int));
        if i < n {
            assert(name@.skip(i as int)[0] == 0u16);
            assert(before_nul_units(name@.skip(i as int)) =~= Seq::<u16>::empty());
        } else {
            assert(name@.skip(i as int) =~= Seq::<u16>::empty());
        }
        assert(trimmed@ =~= before_nul_units(name@));
    }
    if trimmed.len() == 0 {
        return None;
    }
    match cb.find_registered(&trimmed) {
        Some(j) => {
            proof {
                let k = cb@.index_of_registered_name(trimmed@);
                assert(0 <= k < cb@.registered.len() && cb@.registered[k] == trimmed@);
                if k != j {
                    assert(cb@.registered[k] != cb@.registered[j as int]);
                }
            }
            Some(CUSTOM_FORMAT_FIRST + j as u32)
        },
        None => {
            let room: usize = (CUSTOM_FORMAT_LAST - CUSTOM_FORMAT_FIRST + 1) as usize;
            if cb.registered.len() >= room {
                return None;
            }
            let code = CUSTOM_FORMAT_FIRST + cb.registered.len() as u32;
            cb.registered.push(clone_units(&trimmed));
            proof {
                assert(cb@.registered =~= old(cb)@.registered.push(trimmed@));
                assert(cb@ =~= old(cb)@.after_register(before_nul_units(name@)));
                crate::state::lemma_register(old(cb)@, trimmed@);
            }
            Some(code)
        },
    }
}

/// Transcodes `name` to NUL-terminated UTF-16 and interns it as a custom
/// format name; the same name always maps to the same code.
pub fn register_format(cb: &mut ClipboardState, name: &str) -> (r: Option<u32>)
    requires
        old(cb)@.wf(),
    ensures
        final(cb)@.wf(),
        name@.len() == 0 ==> r == None::<u32> && final(cb)@ == old(cb)@,
        name@.len() > 0 ==> final(cb)@ == old(cb)@.after_register(reg_name_units(name@)) && r
            == old(cb)@.register_result(reg_name_units(name@)),
{
    let mut units = encode_wide(name);
    if units.len() == 0 {
        proof {
            if name@.len() > 0 {
                assert(crate::txt::encode_utf16(name@) == crate::txt::utf16_units(name@[0])
                    + crate::txt::encode_utf16(name@.drop_first()));
            }
        }
        return None;
    }
    proof {
        if name@.len() == 0 {
            assert(crate::txt::encode_utf16(name@).len() == 0);
        }
    }
    units.push(0u16);
    proof {
        assert(units@ =~= crate::txt::encode_utf16(name@).push(0u16));
    }
    register_raw_format(cb, &units)
}

/// Resolves a format code to a readable name: the symbolic name for a
/// predefined code, a synthesized range name for the GDI-object and private
/// ranges, the registered name (decoded lossily) for a registered custom
/// code, and `None` for anything else.
pub fn format_name_big(cb: &ClipboardState, format: u32) -> (r: Option<String>)
    requires
        cb@.wf(),
    ensures
        r is Some <==> spec_format_name(cb@, format) is Some,
        r matches Some(s) ==> spec_format_name(cb@, format) == Some(s@),
{
    if format == crate::formats::CF_BITMAP {
        return Some(String::from_str("CF_BITMAP"));
    }
    if format == crate::formats::CF_DIB {
        return Some(String::from_str("CF_DIB"));
    }
    if format == crate::formats::CF_DIBV5 {
        return Some(String::from_str("CF_DIBV5"));
    }
    if format == crate::formats::CF_DIF {
        return Some(String::from_str("CF_DIF"));
    }
    if format == crate::formats::CF_DSPBITMAP {
        return Some(String::from_str("CF_DSPBITMAP"));
    }
    if format == crate::formats::CF_DSPENHMETAFILE {
        return Some(String::from_str("CF_DSPENHMETAFILE"));
    }
    if format == crate::formats::CF_DSPMETAFILEPICT {
        return Some(String::from_str("CF_DSPMETAFILEPICT"));
    }
    if format == crate::formats::CF_DSPTEXT {
        return Some(String::from_str("CF_DSPTEXT"));
    }
    if format == crate::formats::CF_ENHMETAFILE {
        return Some(String::from_str("CF_ENHMETAFILE"));
    }
    if format == crate::formats::CF_HDROP {
        return Some(String::from_str("CF_HDROP"));
    }
    if format == crate::formats::CF_LOCALE {
        return Some(String::from_str("CF_LOCALE"));
    }
    if format == crate::formats::CF_METAFILEPICT {
        return Some(String::from_str("CF_METAFILEPICT"));
    }
    if format == crate::formats::CF_OEMTEXT {
        return Some(String::from_str("CF_OEMTEXT"));
    }
    if format == crate::formats::CF_OWNERDISPLAY {
        return Some(String::from_str("CF_OWNERDISPLAY"));
    }
    if format == crate::formats::CF_PALETTE {
        return Some(String::from_str("CF_PALETTE"));
    }
    if format == crate::formats::CF_PENDATA {
        return Some(String::from_str("CF_PENDATA"));
    }
    if format == crate::formats::CF_RIFF {
        return Some(String::from_str("CF_RIFF"));
    }
    if format == crate::formats::CF_SYLK {
        return Some(String::from_str("CF_SYLK"));
    }
    if format == crate::formats::CF_TEXT {
        return Some(String::from_str("CF_TEXT"));
    }
    if format == crate::formats::CF_WAVE {
        return Some(String::from_str("CF_WAVE"));
    }
    if format == crate::formats::CF_TIFF {
        return Some(String::from_str("CF_TIFF"));
    }
    if format == crate::formats::CF_UNICODETEXT {
        return Some(String::from_str("CF_UNICODETEXT"));
    }
    if crate::formats::CF_GDIOBJFIRST <= format && format <= crate::formats::CF_GDIOBJLAST {
        let mut s = String::from_str("CF_GDIOBJ");
        crate::txt::push_decimal(&mut s, format - crate::formats::CF_GDIOBJFIRST);
        return Some(s);
    }
    if crate::formats::CF_PRIVATEFIRST <= format && format <= crate::formats::CF_PRIVATELAST {
        let mut s = String::from_str("CF_PRIVATE");
        crate::txt::push_decimal(&mut s, format - crate::formats::CF_PRIVATEFIRST);
        return Some(s);
    }
    if format >= CUSTOM_FORMAT_FIRST && ((format - CUSTOM_FORMAT_FIRST) as usize) < cb.registered.len() {
        let idx = (format - CUSTOM_FORMAT_FIRST) as usize;
        let mut s = String::new();
        decode_wide_append(&cb.registered[idx], &mut s);
        proof {
            let units = cb@.registered[idx as int];
            assert(Seq::<char>::empty() + decode_utf16_lossy(units) =~= decode_utf16_lossy(
                units,
            ));
        }
        return Some(s);
    }
    None
}

/// The name [`format_name_big`] resolves a code to, as a value.
pub open spec fn spec_format_name(m: crate::state::ClipboardModel, format: u32) -> Option<
    Seq<char>,
> {
    if format == crate::formats::CF_BITMAP {
        Some("CF_BITMAP"@)
    } else if format == crate::formats::CF_DIB {
        Some("CF_DIB"@)
    } else if format == crate::formats::CF_DIBV5 {
        Some("CF_DIBV5"@)
    } else if format == crate::formats::CF_DIF {
        Some("CF_DIF"@)
    } else if format == crate::formats::CF_DSPBITMAP {
        Some("CF_DSPBITMAP"@)
    } else if format == crate::formats::CF_DSPENHMETAFILE {
        Some("CF_DSPENHMETAFILE"@)
    } else if format == crate::formats::CF_DSPMETAFILEPICT {
        Some("CF_DSPMETAFILEPICT"@)
    } else if format == crate::formats::CF_DSPTEXT {
        Some("CF_DSPTEXT"@)
    } else if format == crate::formats::CF_ENHMETAFILE {
        Some("CF_ENHMETAFILE"@)
    } else if format == crate::formats::CF_HDROP {
        Some("CF_HDROP"@)
    } else if format == crate::formats::CF_LOCALE {
        Some("CF_LOCALE"@)
    } else if format == crate::formats::CF_METAFILEPICT {
        Some("CF_METAFILEPICT"@)
    } else if format == crate::formats::CF_OEMTEXT {
        Some("CF_OEMTEXT"@)
    } else if format == crate::formats::CF_OWNERDISPLAY {
        Some("CF_OWNERDISPLAY"@)
    } else if format == crate::formats::CF_PALETTE {
        Some("CF_PALETTE"@)
    } else if format == crate::formats::CF_PENDATA {
        Some("CF_PENDATA"@)
    } else if format == crate::formats::CF_RIFF {
        Some("CF_RIFF"@)
    } else if format == crate::formats::CF_SYLK {
        Some("CF_SYLK"@)
    } else if format == crate::formats::CF_TEXT {
        Some("CF_TEXT"@)
    } else if format == crate::formats::CF_WAVE {
        Some("CF_WAVE"@)
    } else if format == crate::formats::CF_TIFF {
        Some("CF_TIFF"@)
    } else if format == crate::formats::CF_UNICODETEXT {
        Some("CF_UNICODETEXT"@)
    } else if crate::formats::CF_GDIOBJFIRST <= format && format
        <= crate::formats::CF_GDIOBJLAST {
        Some("CF_GDIOBJ"@ + crate::txt::spec_decimal((format - crate::formats::CF_GDIOBJFIRST) as int))
    } else if crate::formats::CF_PRIVATEFIRST <= format && format
        <= crate::formats::CF_PRIVATELAST {
        Some("CF_PRIVATE"@ + crate::txt::spec_decimal((format - crate::formats::CF_PRIVATEFIRST) as int))
    } else {
        match m.registered_name_of(format) {
            Some(units) => Some(decode_utf16_lossy(units)),
            None => None,
        }
    }
}

/// The file paths carried by a drop-list payload's wide-character region:
/// NUL-terminated strings, one per dropped file, ended by an empty string.
/// A region that runs out without the final terminator still yields the
/// paths read so far.
pub open spec fn split_paths(u: Seq<u16>) -> Seq<Seq<char>>
    decreases u.len(),
{
    if u.len() == 0 || u[0] == 0 {
        Seq::<Seq<char>>::empty()
    } else {
        let name = before_nul_units(u);
        if name.len() + 1 <= u.len() {
            seq![decode_utf16_lossy(name)] + split_paths(u.skip(name.len() as int + 1))
        } else {
            seq![decode_utf16_lossy(name)]
        }
    }
}

/// The dropped file paths stored on the clipboard, in drop order.
///
/// The payload must carry the drop-list header (20 bytes: the offset of the
/// path region, the drop point, and the wide-character flag) and declare
/// wide characters; anything else fails with the invalid-data code, and no
/// partial list is ever returned.
pub fn get_file_list(cb: &ClipboardState) -> (r: SysResult<Vec<String>>)
    requires
        cb@.wf(),
    ensures
        !cb@.is_open ==> r == Err::<Vec<String>, ErrorKind>(
            ErrorKind::PlatformFailure(ERROR_CLIPBOARD_NOT_OPEN),
        ),
        cb@.is_open && !cb@.has(crate::formats::CF_HDROP) ==> r == Err::<Vec<String>, ErrorKind>(
            ErrorKind::FormatUnavailable,
        ),
        cb@.is_open && cb@.has(crate::formats::CF_HDROP) ==> ({
            let d = cb@.payload(crate::formats::CF_HDROP);
            if d.len() < 20 || crate::dib::le32_at(d, 16) == 0 || crate::dib::le32_at(d, 0)
                > d.len() {
                r == Err::<Vec<String>, ErrorKind>(
                    ErrorKind::PlatformFailure(crate::error::ERROR_INVALID_DATA),
                )
            } else {
                r matches Ok(v) && v.deep_view() == split_paths(
                    units_of_le_bytes(d.skip(crate::dib::le32_at(d, 0) as int)),
                )
            }
        }),
{
    if !cb.is_open {
        return Err(ErrorKind::PlatformFailure(ERROR_CLIPBOARD_NOT_OPEN));
    }
    let mut payload: Vec<u8> = Vec::new();
    match get_vec(cb, crate::formats::CF_HDROP, &mut payload) {
        Ok(_) => {},
        Err(e) => {
            return Err(e);
        },
    }
    proof {
        assert(payload@ =~= cb@.payload(crate::formats::CF_HDROP));
    }
    if payload.len() < 20 {
        return Err(ErrorKind::PlatformFailure(crate::error::ERROR_INVALID_DATA));
    }
    let wide = crate::dib::read_u32_le(&payload, 16);
    if wide == 0 {
        return Err(ErrorKind::PlatformFailure(crate::error::ERROR_INVALID_DATA));
    }
    let off = crate::dib::read_u32_le(&payload, 0);
    if off as usize > payload.len() {
        return Err(ErrorKind::PlatformFailure(crate::error::ERROR_INVALID_DATA));
    }
    let region = crate::dib::tail_from(&payload, off as usize);
    let units = units_from_le_bytes(&region);
    let ghost all = units@;
    let n = units.len();
    let mut result: Vec<String> = Vec::new();
    let mut i: usize = 0;
    proof {
        assert(all.skip(0) =~= all);
        assert(result.deep_view() =~= Seq::<Seq<char>>::empty());
        assert(result.deep_view() + split_paths(all) =~= split_paths(all));
    }
    loop
        invariant
            n == all.len(),
            all == units@,
            0 <= i <= n,
            split_paths(all) == result.deep_view() + split_paths(all.skip(i as int)),
        ensures
            result.deep_view() == split_paths(all),
        decreases n - i,
    {
        if i >= n {
            proof {
                assert(all.skip(i as int).len() == 0);
                assert(result.deep_view() + split_paths(all.skip(i as int))
                    =~= result.deep_view());
            }
            break ;
        }
        if units[i] == 0 {
            proof {
                assert(all.skip(i as int)[0] == 0);
                assert(result.deep_view() + split_paths(all.skip(i as int))
                    =~= result.deep_view());
            }
            break ;
        }
        let mut j: usize = i;
        while j < n && units[j] != 0
            invariant
                n == all.len(),
                all == units@,
                i <= j <= n,
                forall|t: int| i <= t < j ==> all[t] != 0u16,
                all[i as int] != 0u16,
            decreases n - j,
        {
            j = j + 1;
        }
        let seg = crate::txt::units_subrange(&units, i, j);
        let ghost rest = all.skip(i as int);
        proof {
            assert(!seg@.contains(0u16)) by {
                if seg@.contains(0u16) {
                    let t = choose|t: int| 0 <= t < seg@.len() && seg@[t] == 0u16;
                    assert(all[i + t] != 0u16);
                }
            }
            assert(rest =~= seg@ + all.skip(j as int));
            crate::txt::lemma_before_nul_units_concat(seg@, all.skip(j as int));
            if j < n {
                assert(all.skip(j as int)[0] == 0u16);
                assert(before_nul_units(all.skip(j as int)) =~= Seq::<u16>::empty());
            } else {
                assert(all.skip(j as int) =~= Seq::<u16>::empty());
            }
            assert(before_nul_units(rest) =~= seg@);
        }
        let mut s = String::new();
        decode_wide_append(&seg, &mut s);
        proof {
            assert(Seq::<char>::empty() + decode_utf16_lossy(seg@) =~= decode_utf16_lossy(seg@));
        }
        let ghost dv = result.deep_view();
        result.push(s);
        proof {
            assert(result.deep_view() =~= dv.push(decode_utf16_lossy(seg@)));
            if j < n {
                assert(seg@.len() + 1 <= rest.len());
                assert(rest.skip(seg@.len() as int + 1) =~= all.skip(j + 1int));
                assert(rest.skip(before_nul_units(rest).len() as int + 1) =~= all.skip(j + 1int));
                assert(split_paths(rest) == seq![decode_utf16_lossy(seg@)] + split_paths(
                    all.skip(j + 1int),
                ));
                assert(dv.push(decode_utf16_lossy(seg@)) + split_paths(all.skip(j + 1int)) =~= dv
                    + split_paths(rest));
            } else {
                assert(seg@.len() + 1 > rest.len());
                assert(split_paths(rest) == seq![decode_utf16_lossy(seg@)]);
                assert(all.skip(n as int).len() == 0);
                assert(dv.push(decode_utf16_lossy(seg@)) + split_paths(all.skip(n as int)) =~= dv
                    + split_paths(rest));
            }
        }
        if j < n {
            i = j + 1;
        } else {
            i = n;
        }
    }
    proof {
        assert(units@ == units_of_le_bytes(
            cb@.payload(crate::formats::CF_HDROP).skip(
                crate::dib::le32_at(cb@.payload(crate::formats::CF_HDROP), 0) as int,
            ),
        ));
    }
    Ok(result)
}

/// Advances the change counter, wrapping at its width.
fn bump_change_counter(cb: &mut ClipboardState)
    ensures
        final(cb)@ == old(cb)@.bumped(),
{
    if cb.seq_number == 0xFFFF_FFFFu32 {
        cb.seq_number = 0;
    } else {
        cb.seq_number = cb.seq_number + 1;
    }
    proof {
        assert(cb@ =~= old(cb)@.bumped());
    }
}

/// In a well-formed model, any slot whose format matches holds the payload.
proof fn lemma_found_payload(m: crate::state::ClipboardModel, format: u32, i: int)
    requires
        m.wf(),
        0 <= i < m.entries.len(),
        m.entries[i].0 == format,
    ensures
        m.has(format),
        m.payload(format) == m.entries[i].1,
        m.index_of_format(format) == i,
{
    assert(m.has(format)) by {
        assert((#[trigger] m.entries[i]).0 == format);
    }
    let k = m.index_of_format(format);
    assert(0 <= k < m.entries.len() && m.entries[k].0 == format);
    if k != i {
        assert(m.entries[k].0 != m.entries[i].0);
    }
}

/// Alias of [`lemma_found_payload`] for call sites that only need the index.
proof fn lemma_found_index(m: crate::state::ClipboardModel, format: u32, i: int)
    requires
        m.wf(),
        0 <= i < m.entries.len(),
        m.entries[i].0 == format,
    ensures
        m.index_of_format(format) == i,
{
    lemma_found_payload(m, format, i);
}

} // verus!
