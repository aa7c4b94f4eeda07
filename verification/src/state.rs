//! An explicit model of the single global clipboard resource.
//!
//! The clipboard is one process-external object: a set of typed slots (one
//! payload per format code), a table of registered custom format names, a
//! change counter, and an open/closed flag guarding mutation. Every operation
//! of this crate takes the state as an argument, so the single-resource
//! protocol is visible in each signature instead of hiding behind ambient
//! global state.

use vstd::prelude::*;

verus! {

/// First format code handed out for registered custom format names.
pub const CUSTOM_FORMAT_FIRST: u32 = 0xC000;

/// Last format code available for registered custom format names.
pub const CUSTOM_FORMAT_LAST: u32 = 0xFFFF;

/// One clipboard slot: a payload stored under a format code.
pub struct Entry {
    /// Format code the payload is stored under.
    pub format: u32,
    /// The stored bytes, exactly as handed over by the setter.
    pub data: Vec<u8>,
}

impl View for Entry {
    type V = (u32, Seq<u8>);

    open spec fn view(&self) -> (u32, Seq<u8>) {
        (self.format, self.data@)
    }
}

/// Mathematical model of the clipboard: what the contracts speak about.
#[verifier::ext_equal]
pub struct ClipboardModel {
    /// Whether a session currently holds the clipboard open.
    pub is_open: bool,
    /// The slots, in the order the payloads were attached.
    pub entries: Seq<(u32, Seq<u8>)>,
    /// Registered custom format names (UTF-16 units, no terminator);
    /// the name at index `i` owns the code `CUSTOM_FORMAT_FIRST + i`.
    pub registered: Seq<Seq<u16>>,
    /// Change counter: bumped by every content change.
    pub seq_number: u32,
}

impl ClipboardModel {
    /// The format codes present, in attachment order.
    pub open spec fn formats(self) -> Seq<u32> {
        self.entries.map_values(|e: (u32, Seq<u8>)| e.0)
    }

    /// Whether a payload is stored under `format`.
    pub open spec fn has(self, format: u32) -> bool {
        exists|i: int| 0 <= i < self.entries.len() && (#[trigger] self.entries[i]).0 == format
    }

    /// Index of the slot holding `format` (meaningful only when `has(format)`).
    pub open spec fn index_of_format(self, format: u32) -> int {
        choose|i: int| 0 <= i < self.entries.len() && (#[trigger] self.entries[i]).0 == format
    }

    /// The payload stored under `format` (meaningful only when `has(format)`).
    pub open spec fn payload(self, format: u32) -> Seq<u8> {
        self.entries[self.index_of_format(format)].1
    }

    /// Whether `name` is already interned in the registration table.
    pub open spec fn has_registered_name(self, name: Seq<u16>) -> bool {
        exists|i: int| 0 <= i < self.registered.len() && self.registered[i] == name
    }

    /// Index of an interned name (meaningful only when `has_registered_name(name)`).
    pub open spec fn index_of_registered_name(self, name: Seq<u16>) -> int {
        choose|i: int| 0 <= i < self.registered.len() && self.registered[i] == name
    }

    /// The model after the clipboard content changed once: the change counter
    /// advances, wrapping at its width.
    pub open spec fn bumped(self) -> ClipboardModel {
        (ClipboardModel { seq_number: seq_bump(self.seq_number), ..self })
    }

    /// The model after all slots were emptied.
    pub open spec fn emptied(self) -> ClipboardModel {
        (ClipboardModel { entries: Seq::<(u32, Seq<u8>)>::empty(), ..self.bumped() })
    }

    /// The model after `data` was attached under `format`: an existing slot
    /// for `format` is replaced in place, otherwise a slot is appended.
    pub open spec fn with_entry(self, format: u32, data: Seq<u8>) -> ClipboardModel {
        (ClipboardModel {
            entries: if self.has(format) {
                self.entries.update(self.index_of_format(format), (format, data))
            } else {
                self.entries.push((format, data))
            },
            ..self.bumped()
        })
    }

    /// The code a registration of `name` hands back, or `None` when the name
    /// is empty or the registration table is full.
    pub open spec fn register_result(self, name: Seq<u16>) -> Option<u32> {
        if name.len() == 0 {
            None
        } else if self.has_registered_name(name) {
            Some((CUSTOM_FORMAT_FIRST + self.index_of_registered_name(name)) as u32)
        } else if self.registered.len() < (CUSTOM_FORMAT_LAST - CUSTOM_FORMAT_FIRST + 1) {
            Some((CUSTOM_FORMAT_FIRST + self.registered.len()) as u32)
        } else {
            None
        }
    }

    /// The model after a registration of `name`: unchanged when the name was
    /// empty, already interned, or the table full; otherwise the name is
    /// appended and owns the next custom code.
    pub open spec fn after_register(self, name: Seq<u16>) -> ClipboardModel {
        if name.len() == 0 || self.has_registered_name(name) || self.registered.len() >= (
        CUSTOM_FORMAT_LAST - CUSTOM_FORMAT_FIRST + 1) {
            self
        } else {
            (ClipboardModel { registered: self.registered.push(name), ..self })
        }
    }

    /// The registered name owning `format`, if `format` lies in the custom
    /// range and a name was registered for it.
    pub open spec fn registered_name_of(self, format: u32) -> Option<Seq<u16>> {
        if CUSTOM_FORMAT_FIRST <= format && format - CUSTOM_FORMAT_FIRST
            < self.registered.len() {
            Some(self.registered[format - CUSTOM_FORMAT_FIRST])
        } else {
            None
        }
    }

    /// Well-formedness: no format stored twice, no payload empty, no format
    /// code zero (zero marks "no format" in enumeration), and the
    /// registration table within the custom code range.
    pub open spec fn wf(self) -> bool {
        &&& (forall|i: int, j: int|
            0 <= i < j < self.entries.len() ==> (#[trigger] self.entries[i]).0 != (
            #[trigger] self.entries[j]).0)
        &&& (forall|i: int|
            0 <= i < self.entries.len() ==> (#[trigger] self.entries[i]).0 != 0 && self.entries[i].1.len()
                > 0)
        &&& self.registered.len() <= (CUSTOM_FORMAT_LAST - CUSTOM_FORMAT_FIRST + 1)
        &&& (forall|i: int|
            0 <= i < self.registered.len() ==> (#[trigger] self.registered[i]).len() > 0
                && !self.registered[i].contains(0u16))
        &&& (forall|i: int, j: int|
            0 <= i < j < self.registered.len() ==> self.registered[i] != self.registered[j])
    }
}

/// The change counter's successor, wrapping at the counter's width.
pub open spec fn seq_bump(n: u32) -> u32 {
    if n == 0xFFFF_FFFFu32 {
        0u32
    } else {
        (n + 1) as u32
    }
}

/// How one attach changes the model: the new slot is present with exactly the
/// attached payload, every other slot is untouched, and the slot list grows
/// only when the format was absent.
pub proof fn lemma_with_entry(m: ClipboardModel, format: u32, data: Seq<u8>)
    requires
        m.wf(),
        format != 0,
        data.len() > 0,
    ensures
        m.with_entry(format, data).wf(),
        m.with_entry(format, data).has(format),
        m.with_entry(format, data).payload(format) == data,
        forall|g: u32|
            g != format ==> (#[trigger] m.with_entry(format, data).has(g) <==> m.has(g)),
        forall|g: u32|
            g != format && m.has(g) ==> #[trigger] m.with_entry(format, data).payload(g)
                == m.payload(g),
        m.with_entry(format, data).formats() == if m.has(format) {
            m.formats()
        } else {
            m.formats().push(format)
        },
{
    let n = m.with_entry(format, data);
    if m.has(format) {
        let k = m.index_of_format(format);
        assert(0 <= k < m.entries.len() && m.entries[k].0 == format);
        assert forall|i: int, j: int| 0 <= i < j < n.entries.len() implies (
        #[trigger] n.entries[i]).0 != (#[trigger] n.entries[j]).0 by {
            assert(m.entries[i].0 != m.entries[j].0);
        }
        assert(n.has(format)) by {
            assert((#[trigger] n.entries[k]).0 == format);
        }
        assert(n.payload(format) == data) by {
            let k2 = n.index_of_format(format);
            assert(0 <= k2 < n.entries.len() && n.entries[k2].0 == format);
            if k2 != k {
                assert(m.entries[k2].0 == format);
                assert(m.entries[k2].0 != m.entries[k].0);
            }
        }
        assert forall|g: u32| g != format implies (#[trigger] n.has(g) <==> m.has(g)) by {
            if n.has(g) {
                let i = choose|i: int|
                    0 <= i < n.entries.len() && (#[trigger] n.entries[i]).0 == g;
                assert(i != k);
                assert((#[trigger] m.entries[i]).0 == g);
            }
            if m.has(g) {
                let i = m.index_of_format(g);
                assert(0 <= i < m.entries.len() && m.entries[i].0 == g);
                assert(i != k);
                assert((#[trigger] n.entries[i]).0 == g);
            }
        }
        assert forall|g: u32| g != format && m.has(g) implies #[trigger] n.payload(g)
            == m.payload(g) by {
            let i = n.index_of_format(g);
            let j = m.index_of_format(g);
            assert(0 <= j < m.entries.len() && m.entries[j].0 == g);
            assert((#[trigger] n.entries[j]).0 == g);
            assert(0 <= i < n.entries.len() && n.entries[i].0 == g);
            assert(i != k);
            assert(m.entries[i].0 == g);
            if i != j {
                assert(m.entries[i].0 != m.entries[j].0);
            }
        }
        assert(n.formats() =~= m.formats()) by {
            assert forall|i: int| 0 <= i < n.entries.len() implies (#[trigger] n.entries[i]).0
                == m.entries[i].0 by {}
        }
    } else {
        let k = m.entries.len() as int;
        assert(n.entries[k] == (format, data));
        assert forall|i: int, j: int| 0 <= i < j < n.entries.len() implies (
        #[trigger] n.entries[i]).0 != (#[trigger] n.entries[j]).0 by {
            if j == k {
                assert(m.entries[i].0 != format) by {
                    if m.entries[i].0 == format {
                        assert(m.has(format)) by {
                            assert((#[trigger] m.entries[i]).0 == format);
                        }
                    }
                }
            } else {
                assert(m.entries[i].0 != m.entries[j].0);
            }
        }
        assert(n.has(format)) by {
            assert((#[trigger] n.entries[k]).0 == format);
        }
        assert(n.payload(format) == data) by {
            let k2 = n.index_of_format(format);
            assert(0 <= k2 < n.entries.len() && n.entries[k2].0 == format);
            if k2 != k {
                assert(m.entries[k2].0 == format);
                assert(m.has(format)) by {
                    assert((#[trigger] m.entries[k2]).0 == format);
                }
            }
        }
        assert forall|g: u32| g != format implies (#[trigger] n.has(g) <==> m.has(g)) by {
            if n.has(g) {
                let i = choose|i: int|
                    0 <= i < n.entries.len() && (#[trigger] n.entries[i]).0 == g;
                assert(i != k);
                assert((#[trigger] m.entries[i]).0 == g);
            }
            if m.has(g) {
                let i = m.index_of_format(g);
                assert(0 <= i < m.entries.len() && m.entries[i].0 == g);
                assert((#[trigger] n.entries[i]).0 == g);
            }
        }
        assert forall|g: u32| g != format && m.has(g) implies #[trigger] n.payload(g)
            == m.payload(g) by {
            let i = n.index_of_format(g);
            let j = m.index_of_format(g);
            assert(0 <= j < m.entries.len() && m.entries[j].0 == g);
            assert((#[trigger] n.entries[j]).0 == g);
            assert(0 <= i < n.entries.len() && n.entries[i].0 == g);
            assert(i != k);
            assert(m.entries[i].0 == g);
            if i != j {
                assert(m.entries[i].0 != m.entries[j].0);
            }
        }
        assert(n.formats() =~= m.formats().push(format)) by {
            assert forall|i: int| 0 <= i < m.entries.len() implies (#[trigger] n.entries[i]).0
                == m.entries[i].0 by {}
        }
    }
}

/// How one registration changes the model, for a usable name: the result is
/// a code in the custom range, the name owns it afterwards, and everything
/// else is untouched.
pub proof fn lemma_register(m: ClipboardModel, name: Seq<u16>)
    requires
        m.wf(),
        name.len() > 0,
        !name.contains(0u16),
    ensures
        m.after_register(name).wf(),
        m.after_register(name).entries == m.entries,
        m.after_register(name).is_open == m.is_open,
        m.after_register(name).seq_number == m.seq_number,
        m.register_result(name) matches Some(code) ==> CUSTOM_FORMAT_FIRST <= code
            <= CUSTOM_FORMAT_LAST && m.after_register(name).registered_name_of(code) == Some(
            name,
        ),
        m.registered.len() < (CUSTOM_FORMAT_LAST - CUSTOM_FORMAT_FIRST + 1)
            ==> m.register_result(name) is Some,
{
    let n = m.after_register(name);
    if m.has_registered_name(name) {
        let i = m.index_of_registered_name(name);
        assert(0 <= i < m.registered.len() && m.registered[i] == name);
    } else if m.registered.len() < (CUSTOM_FORMAT_LAST - CUSTOM_FORMAT_FIRST + 1) {
        let k = m.registered.len() as int;
        assert(n.registered[k] == name);
        assert forall|i: int, j: int| 0 <= i < j < n.registered.len() implies n.registered[i]
            != n.registered[j] by {
            if j == k {
                if m.registered[i] == name {
                    assert(m.has_registered_name(name)) by {
                        assert(m.registered[i] == name);
                    }
                }
            } else {
                assert(m.registered[i] != m.registered[j]);
            }
        }
    }
}

/// Registering a name twice hands back the same code both times, and the
/// second registration changes nothing.
pub proof fn lemma_register_idempotent(m: ClipboardModel, name: Seq<u16>)
    ensures
        m.after_register(name).register_result(name) == m.register_result(name),
        m.after_register(name).after_register(name) == m.after_register(name),
{
    let n = m.after_register(name);
    if name.len() == 0 {
    } else if m.has_registered_name(name) {
    } else if m.registered.len() < (CUSTOM_FORMAT_LAST - CUSTOM_FORMAT_FIRST + 1) {
        let k = m.registered.len() as int;
        assert(n.registered[k] == name);
        assert(n.has_registered_name(name)) by {
            assert(n.registered[k] == name);
        }
        let j = n.index_of_registered_name(name);
        assert(0 <= j < n.registered.len() && n.registered[j] == name);
        assert(j == k) by {
            if j < k {
                assert(m.registered[j] == name);
                assert(m.has_registered_name(name)) by {
                    assert(m.registered[j] == name);
                }
            }
        }
    }
}

/// The clipboard itself, as a value: slots, registered names, change counter,
/// and the open/closed flag of the session protocol.
pub struct ClipboardState {
    /// Whether a session currently holds the clipboard open.
    pub is_open: bool,
    /// The slots, in attachment order.
    pub entries: Vec<Entry>,
    /// Registered custom format names (UTF-16 units, no terminator).
    pub registered: Vec<Vec<u16>>,
    /// Change counter.
    pub seq_number: u32,
}

impl View for ClipboardState {
    type V = ClipboardModel;

    open spec fn view(&self) -> ClipboardModel {
        (ClipboardModel {
            is_open: self.is_open,
            entries: self.entries@.map_values(|e: Entry| e@),
            registered: self.registered@.map_values(|n: Vec<u16>| n@),
            seq_number: self.seq_number,
        })
    }
}

impl ClipboardState {
    /// A clipboard that is closed, empty, and has no registered names.
    pub fn new() -> (r: ClipboardState)
        ensures
            r@ == (ClipboardModel {
                is_open: false,
                entries: Seq::<(u32, Seq<u8>)>::empty(),
                registered: Seq::<Seq<u16>>::empty(),
                seq_number: 0u32,
            }),
            r@.wf(),
    {
        let r = ClipboardState { is_open: false, entries: Vec::new(), registered: Vec::new(), seq_number: 0 };
        proof {
            assert(r@.entries =~= Seq::<(u32, Seq<u8>)>::empty());
            assert(r@.registered =~= Seq::<Seq<u16>>::empty());
            assert(r@ =~= (ClipboardModel {
                is_open: false,
                entries: Seq::<(u32, Seq<u8>)>::empty(),
                registered: Seq::<Seq<u16>>::empty(),
                seq_number: 0u32,
            }));
        }
        r
    }

    /// Index of the registered name equal to `name`, if any.
    pub(crate) fn find_registered(&self, name: &Vec<u16>) -> (r: Option<usize>)
        ensures
            r matches Some(i) ==> 0 <= i < self@.registered.len() && self@.registered[i as int]
                == name@,
            r is Some <==> self@.has_registered_name(name@),
    {
        let n = self.registered.len();
        let mut i: usize = 0;
        while i < n
            invariant
                n == self@.registered.len(),
                0 <= i <= n,
                forall|j: int| 0 <= j < i ==> self@.registered[j] != name@,
            decreases n - i,
        {
            if units_equal(&self.registered[i], name) {
                proof {
                    assert(self@.has_registered_name(name@)) by {
                        assert(self@.registered[i as int] == name@);
                    }
                }
                return Some(i);
            }
            i = i + 1;
        }
        proof {
            if self@.has_registered_name(name@) {
                let j = choose|j: int|
                    0 <= j < self@.registered.len() && self@.registered[j] == name@;
                assert(self@.registered[j] != name@);
            }
        }
        None
    }

    /// Index of the slot holding `format`, if any.
    pub(crate) fn find_format(&self, format: u32) -> (r: Option<usize>)
        ensures
            r is Some ==> 0 <= r->0 < self@.entries.len() && self@.entries[r->0 as int].0
                == format,
            r is None ==> !self@.has(format),
            r is Some <==> self@.has(format),
    {
        let n = self.entries.len();
        let mut i: usize = 0;
        while i < n
            invariant
                n == self@.entries.len(),
                0 <= i <= n,
                forall|j: int| 0 <= j < i ==> (#[trigger] self@.entries[j]).0 != format,
            decreases n - i,
        {
            if self.entries[i].format == format {
                proof {
                    assert(self@.has(format)) by {
                        assert((#[trigger] self@.entries[i as int]).0 == format);
                    }
                }
                return Some(i);
            }
            i = i + 1;
        }
        None
    }
}

/// Whether two unit buffers hold the same units.
fn units_equal(a: &Vec<u16>, b: &Vec<u16>) -> (r: bool)
    ensures
        r == (a@ == b@),
{
    let n = a.len();
    if n != b.len() {
        proof {
            assert(a@ != b@);
        }
        return false;
    }
    let mut i: usize = 0;
    while i < n
        invariant
            n == a@.len() == b@.len(),
            0 <= i <= n,
            forall|j: int| 0 <= j < i ==> a@[j] == b@[j],
        decreases n - i,
    {
        if a[i] != b[i] {
            return false;
        }
        i = i + 1;
    }
    proof {
        assert(a@ =~= b@);
    }
    true
}

} // verus!
