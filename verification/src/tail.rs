//! Log-follower state machine.  A follower owns a watch on the log file's
//! directory and on the file itself, reacts to kernel events (readable
//! bytes, truncation, delete or rename, directory writes) and keeps a line
//! buffer of everything read so far.  The decisions are made here as pure
//! functions of state and event; performing them (reads, seeks, reopens)
//! is the caller's side of the bargain, reported back through `note_fill`
//! and `note_reopened`.

use vstd::prelude::*;
use crate::buf::Buf;
use crate::buf::Error;
use crate::buf::first_sep;
use crate::buf::utf8_of;

verus! {

/// Filter identifying descriptor-readability events.
pub const EVFILT_READ: i16 = -1;

/// Filter identifying filesystem-change events.
pub const EVFILT_VNODE: i16 = -4;

pub const EV_ADD: u16 = 0x0001;

pub const EV_CLEAR: u16 = 0x0020;

pub const EV_RECEIPT: u16 = 0x0040;

pub const EV_ERROR: u16 = 0x4000;

pub const NOTE_DELETE: u32 = 0x0001;

pub const NOTE_WRITE: u32 = 0x0002;

pub const NOTE_EXTEND: u32 = 0x0004;

pub const NOTE_RENAME: u32 = 0x0020;

/// One kernel event record, as plain named fields: the descriptor it
/// concerns, the filter that fired, flag bits, filter-specific flag bits,
/// and the filter-specific data value (bytes available for readability
/// events, an error number for receipts).
#[derive(Clone, Copy, Debug, PartialEq, Eq, Structural)]
pub struct Kevent {
    pub ident: u64,
    pub filter: i16,
    pub flags: u16,
    pub fflags: u32,
    pub data: i64,
}

impl Kevent {
    /// An all-zero event record, for filling a wait buffer.
    pub fn empty() -> (e: Kevent)
        ensures
            e.ident == 0,
            e.filter == 0,
            e.flags == 0,
            e.fflags == 0,
            e.data == 0,
    {
        Kevent { ident: 0, filter: 0, flags: 0, fflags: 0, data: 0 }
    }
}

/// Builds a registration record for `fd` with the given filter and filter
/// flags: add, clear-on-read, report-by-receipt.
pub fn event(fd: i32, filter: i16, fflags: u32) -> (e: Kevent)
    requires
        fd >= 0,
    ensures
        e.ident == fd as u64,
        e.filter == filter,
        e.flags == EV_ADD | EV_CLEAR | EV_RECEIPT,
        e.fflags == fflags,
        e.data == 0,
{
    Kevent { ident: fd as u64, filter, flags: EV_ADD | EV_CLEAR | EV_RECEIPT, fflags, data: 0 }
}

/// Registration for filesystem changes on `fd`: delete, extend, rename,
/// write.
pub fn vnode_event(fd: i32) -> (e: Kevent)
    requires
        fd >= 0,
    ensures
        e.ident == fd as u64,
        e.filter == EVFILT_VNODE,
        e.flags == EV_ADD | EV_CLEAR | EV_RECEIPT,
        e.fflags == NOTE_DELETE | NOTE_EXTEND | NOTE_RENAME | NOTE_WRITE,
        e.data == 0,
{
    event(fd, EVFILT_VNODE, NOTE_DELETE | NOTE_EXTEND | NOTE_RENAME | NOTE_WRITE)
}

/// Registration for readability on `fd`.
pub fn read_event(fd: i32) -> (e: Kevent)
    requires
        fd >= 0,
    ensures
        e.ident == fd as u64,
        e.filter == EVFILT_READ,
        e.flags == EV_ADD | EV_CLEAR | EV_RECEIPT,
        e.fflags == 0,
        e.data == 0,
{
    event(fd, EVFILT_READ, 0)
}

/// Whether a receipt record reports a registration error.
pub open spec fn is_change_error(ev: Kevent) -> bool {
    ev.flags & EV_ERROR != 0 && ev.data != 0
}

/// The error number of the first receipt at or after `from` that reports a
/// registration error, if any.
pub open spec fn first_change_error(events: Seq<Kevent>, from: int) -> Option<i64>
    decreases events.len() - from,
{
    if !(0 <= from < events.len()) {
        None
    } else if is_change_error(events[from]) {
        Some(events[from].data)
    } else {
        first_change_error(events, from + 1)
    }
}

proof fn lemma_first_change_error_at(events: Seq<Kevent>, from: int, i: int)
    requires
        0 <= from <= i <= events.len(),
        forall|j: int| from <= j < i ==> !is_change_error(#[trigger] events[j]),
    ensures
        i == events.len() ==> first_change_error(events, from) is None,
        i < events.len() && is_change_error(events[i]) ==> first_change_error(events, from)
            == Some(events[i].data),
    decreases i - from,
{
    if from < i {
        lemma_first_change_error_at(events, from + 1, i);
    }
}

/// Scans the first `n` receipts of a registration batch and returns the
/// error number of the first entry that set the error flag with non-zero
/// data, if any: the whole batch is then considered failed.
pub fn change_error(events: &[Kevent], n: usize) -> (r: Option<i64>)
    requires
        n <= events@.len(),
    ensures
        r == first_change_error(events@.take(n as int), 0),
{
    let ghost batch = events@.take(n as int);
    let mut i: usize = 0;
    while i < n
        invariant
            i <= n <= events@.len(),
            batch == events@.take(n as int),
            forall|j: int| 0 <= j < i ==> !is_change_error(#[trigger] batch[j]),
        decreases n - i,
    {
        let ev = events[i];
        if ev.flags & EV_ERROR != 0 && ev.data != 0 {
            proof {
                assert(is_change_error(batch[i as int]));
                lemma_first_change_error_at(batch, 0, i as int);
            }
            return Some(ev.data);
        }
        i = i + 1;
    }
    proof {
        lemma_first_change_error_at(batch, 0, n as int);
    }
    None
}

/// What the follower decides to do about one kernel event.
#[derive(Clone, Copy, Debug, PartialEq, Eq, Structural)]
pub enum Action {
    /// Read exactly this many newly available bytes from the file and hand
    /// them to `note_fill`.
    Fill { len: u64 },
    /// The file shrank: seek by this delta from the current offset to
    /// resynchronize, reading nothing.
    Resync { offset: i64 },
    /// The open file was deleted or renamed: close it, try to reopen the
    /// path, and report the outcome to `note_reopened`.
    Reopen,
    /// The directory changed while no file is open: try to open the path
    /// and report the outcome to `note_reopened`.
    TryOpen,
    /// Not relevant to this follower.
    Ignore,
}

/// The log follower's state: the watched directory's descriptor, the
/// current file descriptor or the unopened sentinel, and the line buffer.
pub struct Tailer {
    pub dir: i32,
    pub file: i32,
    pub buf: Buf,
}

/// The sentinel descriptor meaning no file is currently open.
pub const UNOPENED: i32 = -1;

impl Tailer {
    pub open spec fn wf(self) -> bool {
        &&& self.dir >= 0
        &&& self.file >= UNOPENED
        &&& self.buf.wf()
        &&& self.buf.sep == 10u8
    }

    /// Whether a file is currently open (as opposed to the sentinel).
    pub open spec fn file_open(self) -> bool {
        self.file >= 0
    }

    /// A follower over an already opened directory descriptor and an
    /// optional already opened file descriptor, with an empty line buffer
    /// separated on newlines.
    pub fn new(dir: i32, file: i32) -> (t: Tailer)
        requires
            dir >= 0,
            file >= UNOPENED,
        ensures
            t.wf(),
            t.dir == dir,
            t.file == file,
            t.buf.bytes@ =~= Seq::<u8>::empty(),
            t.buf.cursor == 0,
    {
        Tailer { dir, file, buf: Buf::new(10u8) }
    }

    /// The decision table of the state machine, exactly as the follower
    /// acts on a batch entry: readable data on the open file is read,
    /// a non-positive readable delta resynchronizes, delete-or-rename of
    /// the open file forces a reopen, a directory write with no file open
    /// prompts an open attempt, and anything else is ignored.
    pub open spec fn spec_action(self, ev: Kevent) -> Action {
        if ev.filter == EVFILT_READ && self.file >= 0 && ev.ident == self.file as u64 {
            if ev.data > 0 {
                Action::Fill { len: ev.data as u64 }
            } else {
                Action::Resync { offset: ev.data }
            }
        } else if ev.filter == EVFILT_VNODE && self.file >= 0 && ev.ident == self.file as u64 && (
        ev.fflags & (NOTE_DELETE | NOTE_RENAME)) != 0 {
            Action::Reopen
        } else if ev.filter == EVFILT_VNODE && self.file == UNOPENED && ev.ident == self.dir as u64
            && (ev.fflags & NOTE_WRITE) != 0 {
            Action::TryOpen
        } else {
            Action::Ignore
        }
    }

    /// Decides what one kernel event means for this follower.
    pub fn handle(&self, ev: &Kevent) -> (a: Action)
        ensures
            a == self.spec_action(*ev),
    {
        if ev.filter == EVFILT_READ && self.file >= 0 && ev.ident == self.file as u64 {
            if ev.data > 0 {
                Action::Fill { len: ev.data as u64 }
            } else {
                Action::Resync { offset: ev.data }
            }
        } else if ev.filter == EVFILT_VNODE && self.file >= 0 && ev.ident == self.file as u64 && (
        ev.fflags & (NOTE_DELETE | NOTE_RENAME)) != 0 {
            Action::Reopen
        } else if ev.filter == EVFILT_VNODE && self.file == UNOPENED && ev.ident == self.dir as u64
            && (ev.fflags & NOTE_WRITE) != 0 {
            Action::TryOpen
        } else {
            Action::Ignore
        }
    }

    /// Absorbs the bytes that a `Fill` action read from the file: they are
    /// appended after the unconsumed tail, which is preserved.
    pub fn note_fill(&mut self, data: &[u8])
        requires
            old(self).wf(),
        ensures
            final(self).wf(),
            final(self).dir == old(self).dir,
            final(self).file == old(self).file,
            final(self).buf.cursor == 0,
            final(self).buf.bytes@ == old(self).buf.pending() + data@,
    {
        self.buf.append(data);
    }

    /// Records the outcome of a `Reopen` or `TryOpen` attempt: the new file
    /// descriptor, or the unopened sentinel when the path is absent.  The
    /// buffered bytes survive, so no line is lost across a rotation.
    pub fn note_reopened(&mut self, fd: i32)
        requires
            old(self).wf(),
            fd >= UNOPENED,
        ensures
            final(self).wf(),
            final(self).dir == old(self).dir,
            final(self).file == fd,
            final(self).buf == old(self).buf,
    {
        self.file = fd;
    }

    /// Produces the next complete buffered line, if any, with the same
    /// contract as the line buffer's own `next_line`: nothing is consumed
    /// when no separator is buffered, a completed line is consumed exactly
    /// once, in input order, and an all-ASCII line always decodes.
    pub fn next_line(&mut self) -> (r: Result<Option<String>, Error>)
        requires
            old(self).wf(),
        ensures
            final(self).wf(),
            final(self).dir == old(self).dir,
            final(self).file == old(self).file,
            final(self).buf.bytes@ == old(self).buf.bytes@,
            ({
                let found = first_sep(old(self).buf.bytes@, 10u8, old(self).buf.cursor as int);
                match found {
                    Option::None => r == Ok::<Option<String>, Error>(None) && final(self).buf.cursor
                        == old(self).buf.cursor,
                    Option::Some(i) => {
                        let slice = old(self).buf.bytes@.subrange(old(self).buf.cursor as int, i);
                        &&& final(self).buf.cursor == i + 1
                        &&& match utf8_of(slice) {
                            Option::Some(cs) => r matches Ok(Some(s)) && s@ == cs,
                            Option::None => r == Err::<Option<String>, Error>(Error::Utf8Error),
                        }
                        &&& (forall|j: int| 0 <= j < slice.len() ==> slice[j] < 128) ==> (r matches Ok(Some(s))
                            && s@.len() == slice.len() && (forall|j: int|
                            0 <= j < slice.len() ==> s@[j] == slice[j] as char))
                    },
                }
            }),
    {
        self.buf.next_line()
    }
}

} // verus!