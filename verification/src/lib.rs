//! A safe, verified core for a Windows-style clipboard: the open/close session
//! protocol, the global-memory lock/release discipline, the raw payload codec
//! with its UTF-16 text path, format registration and enumeration, and the
//! BMP/DIB byte codec.
//!
//! The clipboard itself is modelled as an explicit [`state::ClipboardState`]
//! value that every operation takes as an argument, so the single-resource
//! protocol is visible in every signature and checkable by the verifier.

use vstd::prelude::*;

pub mod dib;
pub mod error;
pub mod formats;
pub mod image;
pub mod laws;
pub mod raw;
pub mod state;
pub mod txt;
pub mod utils;

verus! {

/// Alias to result used by this crate.
pub type SysResult<T> = Result<T, error::ErrorKind>;

/// A session token: proof that the holder opened the clipboard and owes it a
/// close. Deliberately neither copyable nor clonable — at most one session
/// should exist at a time, the clipboard being one global resource.
pub struct Clipboard {
    _priv: bool,
}

impl Clipboard {
    /// Attempts to open the clipboard, returning a session token on success.
    pub fn new(cb: &mut state::ClipboardState) -> (r: SysResult<Clipboard>)
        ensures
            old(cb)@.is_open ==> (r matches Err(e) && e == error::ErrorKind::PlatformFailure(
                error::ERROR_ACCESS_DENIED,
            )) && final(cb)@ == old(cb)@,
            !old(cb)@.is_open ==> (r is Ok) && final(cb)@ == (state::ClipboardModel {
                is_open: true,
                ..old(cb)@
            }),
            old(cb)@.wf() ==> final(cb)@.wf(),
    {
        match raw::open(cb) {
            Ok(()) => Ok(Clipboard { _priv: true }),
            Err(e) => Err(e),
        }
    }

    /// Attempts to open the clipboard, retrying up to `num` further times on
    /// failure (no delay between attempts; contention is usually transient).
    pub fn new_attempts(cb: &mut state::ClipboardState, num: usize) -> (r: SysResult<Clipboard>)
        ensures
            old(cb)@.is_open ==> (r matches Err(e) && e == error::ErrorKind::PlatformFailure(
                error::ERROR_ACCESS_DENIED,
            )) && final(cb)@ == old(cb)@,
            !old(cb)@.is_open ==> (r is Ok) && final(cb)@ == (state::ClipboardModel {
                is_open: true,
                ..old(cb)@
            }),
            old(cb)@.wf() ==> final(cb)@.wf(),
    {
        let mut left = num;
        loop
            invariant
                cb@ == old(cb)@,
            decreases left,
        {
            match Self::new(cb) {
                Ok(this) => {
                    return Ok(this);
                },
                Err(err) => {
                    if left == 0 {
                        return Err(err);
                    }
                    left = left - 1;
                },
            }
        }
    }

    /// Releases the session, closing the clipboard.
    pub fn close(self, cb: &mut state::ClipboardState) -> (r: SysResult<()>)
        ensures
            !old(cb)@.is_open ==> r == Err::<(), error::ErrorKind>(
                error::ErrorKind::PlatformFailure(error::ERROR_CLIPBOARD_NOT_OPEN),
            ) && final(cb)@ == old(cb)@,
            old(cb)@.is_open ==> r == Ok::<(), error::ErrorKind>(()) && final(cb)@ == (
            state::ClipboardModel { is_open: false, ..old(cb)@ }),
            old(cb)@.wf() ==> final(cb)@.wf(),
    {
        raw::close(cb)
    }
}

/// Runs `body` inside a clipboard session: opens the clipboard, hands the
/// opened state to `body`, and closes whatever state `body` hands back —
/// the close happens on every successful-open path, even when `body` left
/// the state closed itself (a failing close is swallowed, as spec'd for
/// release paths). If the clipboard cannot be opened, `body` never runs.
///
/// The state travels by value: Verus cannot yet reason about closures that
/// borrow mutably, so the session body is a function from state to state.
pub fn with_clipboard<F: FnOnce(state::ClipboardState) -> state::ClipboardState>(
    cb: state::ClipboardState,
    body: F,
) -> (r: (state::ClipboardState, SysResult<()>))
    requires
        cb@.wf(),
        forall|s: state::ClipboardState|
            s@.wf() && s@.is_open ==> #[trigger] call_requires(body, (s,)),
    ensures
        cb@.is_open ==> r.1 == Err::<(), error::ErrorKind>(
            error::ErrorKind::PlatformFailure(error::ERROR_ACCESS_DENIED),
        ) && r.0@ == cb@,
        !cb@.is_open ==> r.1 == Ok::<(), error::ErrorKind>(()) && (exists|
            s: state::ClipboardState,
            t: state::ClipboardState,
        |
            {
                &&& s@ == (state::ClipboardModel { is_open: true, ..cb@ })
                &&& #[trigger] call_ensures(body, (s,), t)
                &&& r.0@ == (if t@.is_open {
                    (state::ClipboardModel { is_open: false, ..t@ })
                } else {
                    t@
                })
            }),
{
    let mut s = cb;
    match raw::open(&mut s) {
        Err(e) => {
            return (s, Err(e));
        },
        Ok(()) => {},
    }
    let ghost opened = s;
    let mut t = body(s);
    let ghost ran = t;
    let _ = raw::close(&mut t);
    proof {
        assert(call_ensures(body, (opened,), ran));
    }
    (t, Ok(()))
}

/// Like [`with_clipboard`], but retries the open up to `num` further times
/// before giving up (no delay between attempts).
pub fn with_clipboard_attempts<F: FnOnce(state::ClipboardState) -> state::ClipboardState>(
    cb: state::ClipboardState,
    num: usize,
    body: F,
) -> (r: (state::ClipboardState, SysResult<()>))
    requires
        cb@.wf(),
        forall|s: state::ClipboardState|
            s@.wf() && s@.is_open ==> #[trigger] call_requires(body, (s,)),
    ensures
        cb@.is_open ==> r.1 == Err::<(), error::ErrorKind>(
            error::ErrorKind::PlatformFailure(error::ERROR_ACCESS_DENIED),
        ) && r.0@ == cb@,
        !cb@.is_open ==> r.1 == Ok::<(), error::ErrorKind>(()) && (exists|
            s: state::ClipboardState,
            t: state::ClipboardState,
        |
            {
                &&& s@ == (state::ClipboardModel { is_open: true, ..cb@ })
                &&& #[trigger] call_ensures(body, (s,), t)
                &&& r.0@ == (if t@.is_open {
                    (state::ClipboardModel { is_open: false, ..t@ })
                } else {
                    t@
                })
            }),
{
    let mut s = cb;
    let mut left = num;
    loop
        invariant_except_break
            s@ == cb@,
        invariant
            cb@.wf(),
        ensures
            !cb@.is_open,
            s@ == (state::ClipboardModel { is_open: true, ..cb@ }),
            s@.wf(),
        decreases left,
    {
        match raw::open(&mut s) {
            Ok(()) => {
                break ;
            },
            Err(e) => {
                if left == 0 {
                    return (s, Err(e));
                }
                left = left - 1;
            },
        }
    }
    let ghost opened = s;
    let mut t = body(s);
    let ghost ran = t;
    let _ = raw::close(&mut t);
    proof {
        assert(call_ensures(body, (opened,), ran));
    }
    (t, Ok(()))
}

} // verus!
