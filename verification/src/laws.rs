//! Crate-level laws: properties relating several operations, stated over the
//! same model functions the operations' contracts use, and proved once here.

use vstd::prelude::*;

use crate::state::ClipboardModel;
use crate::txt::trim_trailing_nul;
use crate::txt::decode_utf16_lossy;
use crate::txt::lemma_reg_name_units;
use crate::txt::lemma_string_round_trip;
use crate::txt::reg_name_units;
use crate::txt::units_of_le_bytes;
use crate::txt::wide_payload;

verus! {

/// Round-trip text: storing a non-empty text and reading the text payload
/// back into a cleared buffer yields exactly the original text, wide and
/// multi-byte characters included.
///
/// The payload stored by the text setter is `wide_payload(s)`; what the text
/// getter appends is the decoded payload with its one trailing NUL
/// terminator trimmed. The two compose to the identity.
pub proof fn lemma_text_round_trip(s: Seq<char>)
    requires
        s.len() > 0,
    ensures
        trim_trailing_nul(decode_utf16_lossy(units_of_le_bytes(wide_payload(s)))) == s,
{
    lemma_string_round_trip(s);
}

/// Append semantics: reading the text payload appends the same characters
/// whatever the buffer already holds, so two uncleared reads after one store
/// of `s` leave `buffer ++ s ++ s`, and the second read reports the size of
/// `s` again, not a cumulative count.
pub proof fn lemma_text_append_semantics(s: Seq<char>, buffer: Seq<char>)
    requires
        s.len() > 0,
    ensures
        ({
            let appended = trim_trailing_nul(decode_utf16_lossy(units_of_le_bytes(wide_payload(s))));
            &&& (buffer + appended) + appended == (buffer + s) + s
            &&& vstd::utf8::encode_utf8(appended).len() == vstd::utf8::encode_utf8(s).len()
        }),
{
    lemma_string_round_trip(s);
}

/// Raw store/read agreement: after a store of `data` under a format, the
/// payload held for that format is exactly `data` — so a bounded read into a
/// buffer of `K` bytes copies `data[..min(K, N)]` and reports `min(K, N)`,
/// and an unbounded read appends all of `data`, as the getters' contracts
/// state over this payload.
pub proof fn lemma_raw_store_read(m: ClipboardModel, format: u32, data: Seq<u8>)
    requires
        m.wf(),
        format != 0,
        data.len() > 0,
    ensures
        m.emptied().with_entry(format, data).wf(),
        m.emptied().with_entry(format, data).has(format),
        m.emptied().with_entry(format, data).payload(format) == data,
{
    crate::state::lemma_with_entry(m.emptied(), format, data);
}

/// Format absence: on a freshly emptied clipboard no format is present, so
/// availability tests answer `false` for every code and the getters report
/// the format-unavailable error rather than a platform failure.
pub proof fn lemma_format_absence(m: ClipboardModel)
    ensures
        forall|format: u32| !m.emptied().has(format),
{
}

/// Enumeration completeness: after emptying the clipboard, storing a payload
/// under one format and another payload under a second, different format,
/// the clipboard holds exactly those two formats, in that order — so the
/// format count is exactly two and enumeration yields both codes.
pub proof fn lemma_enumeration_completeness(
    m: ClipboardModel,
    f1: u32,
    f2: u32,
    d1: Seq<u8>,
    d2: Seq<u8>,
)
    requires
        m.wf(),
        f1 != 0,
        f2 != 0,
        f1 != f2,
        d1.len() > 0,
        d2.len() > 0,
    ensures
        ({
            let m2 = m.emptied().with_entry(f1, d1).with_entry(f2, d2);
            &&& m2.wf()
            &&& m2.entries.len() == 2
            &&& m2.formats() == seq![f1, f2]
            &&& m2.has(f1) && m2.has(f2)
            &&& m2.payload(f1) == d1 && m2.payload(f2) == d2
        }),
{
    let m0 = m.emptied();
    let m1 = m0.with_entry(f1, d1);
    crate::state::lemma_with_entry(m0, f1, d1);
    assert(!m0.has(f1));
    crate::state::lemma_with_entry(m1, f2, d2);
    assert(!m0.has(f2));
    assert(!m1.has(f2));
    let m2 = m1.with_entry(f2, d2);
    assert(m1.formats() =~= Seq::<u32>::empty().push(f1));
    assert(m2.formats() =~= seq![f1, f2]);
}

/// Custom format idempotence: registering the same non-empty, NUL-free name
/// twice hands back the same format code both times, and the second
/// registration leaves the registration table unchanged.
pub proof fn lemma_register_format_idempotent(m: ClipboardModel, name: Seq<char>)
    requires
        name.len() > 0,
        !name.contains('\0'),
    ensures
        m.after_register(reg_name_units(name)).register_result(reg_name_units(name))
            == m.register_result(reg_name_units(name)),
        m.after_register(reg_name_units(name)).after_register(reg_name_units(name))
            == m.after_register(reg_name_units(name)),
{
    lemma_reg_name_units(name);
    crate::state::lemma_register_idempotent(m, reg_name_units(name));
}

} // verus!
