use irongate::tail::Action;
use irongate::tail::Kevent;
use irongate::tail::Tailer;
use irongate::tail::change_error;
use irongate::tail::read_event;
use irongate::tail::vnode_event;
use irongate::tail::EVFILT_READ;
use irongate::tail::EVFILT_VNODE;
use irongate::tail::EV_ADD;
use irongate::tail::EV_CLEAR;
use irongate::tail::EV_ERROR;
use irongate::tail::EV_RECEIPT;
use irongate::tail::NOTE_DELETE;
use irongate::tail::NOTE_EXTEND;
use irongate::tail::NOTE_RENAME;
use irongate::tail::NOTE_WRITE;
use irongate::tail::UNOPENED;

fn readable(fd: u64, data: i64) -> Kevent {
    Kevent { ident: fd, filter: EVFILT_READ, flags: 0, fflags: 0, data }
}

fn vnode(fd: u64, fflags: u32) -> Kevent {
    Kevent { ident: fd, filter: EVFILT_VNODE, flags: 0, fflags, data: 0 }
}

#[test]
fn follower_survives_rename() {
    let mut t = Tailer::new(3, 4);
    // bytes arrive on the open file and form the first line
    assert_eq!(Action::Fill { len: 4 }, t.handle(&readable(4, 4)));
    t.note_fill(b"foo\n");
    assert_eq!(Ok(Some("foo".to_string())), t.next_line());
    // the file is renamed away; the path reopens as a new descriptor
    assert_eq!(Action::Reopen, t.handle(&vnode(4, NOTE_RENAME)));
    t.note_reopened(5);
    // events for the stale descriptor no longer matter
    assert_eq!(Action::Ignore, t.handle(&readable(4, 7)));
    // the recreated file's line is observed, in order, exactly once
    assert_eq!(Action::Fill { len: 4 }, t.handle(&readable(5, 4)));
    t.note_fill(b"bar\n");
    assert_eq!(Ok(Some("bar".to_string())), t.next_line());
    assert_eq!(Ok(None), t.next_line());
}

#[test]
fn follower_finds_created_file() {
    let mut t = Tailer::new(3, UNOPENED);
    // directory writes are only interesting while no file is open
    assert_eq!(Action::TryOpen, t.handle(&vnode(3, NOTE_WRITE)));
    t.note_reopened(4);
    assert_eq!(Action::Ignore, t.handle(&vnode(3, NOTE_WRITE)));
    assert_eq!(Action::Fill { len: 2 }, t.handle(&readable(4, 2)));
}

#[test]
fn follower_resyncs_on_truncation() {
    let t = Tailer::new(3, 4);
    assert_eq!(Action::Resync { offset: -9 }, t.handle(&readable(4, -9)));
    assert_eq!(Action::Resync { offset: 0 }, t.handle(&readable(4, 0)));
}

#[test]
fn follower_reopens_on_delete() {
    let mut t = Tailer::new(3, 4);
    t.note_fill(b"par");
    assert_eq!(Action::Reopen, t.handle(&vnode(4, NOTE_DELETE)));
    // the path is gone: remain in the no-file state
    t.note_reopened(UNOPENED);
    assert_eq!(Action::Ignore, t.handle(&readable(4, 3)));
    // the partial line survived the churn
    t.note_fill(b"tial\n");
    assert_eq!(Ok(Some("partial".to_string())), t.next_line());
}

#[test]
fn registration_builders() {
    let v = vnode_event(7);
    assert_eq!(7, v.ident);
    assert_eq!(EVFILT_VNODE, v.filter);
    assert_eq!(EV_ADD | EV_CLEAR | EV_RECEIPT, v.flags);
    assert_eq!(NOTE_DELETE | NOTE_EXTEND | NOTE_RENAME | NOTE_WRITE, v.fflags);
    let r = read_event(7);
    assert_eq!(7, r.ident);
    assert_eq!(EVFILT_READ, r.filter);
    assert_eq!(0, r.fflags);
    let e = Kevent::empty();
    assert_eq!(0, e.ident);
    assert_eq!(0, e.filter);
    assert_eq!(0, e.data);
}

#[test]
fn change_error_finds_first() {
    let ok = Kevent { ident: 1, filter: 0, flags: EV_ADD, fflags: 0, data: 0 };
    let silent = Kevent { ident: 2, filter: 0, flags: EV_ERROR, fflags: 0, data: 0 };
    let bad = Kevent { ident: 3, filter: 0, flags: EV_ERROR, fflags: 0, data: 17 };
    let worse = Kevent { ident: 4, filter: 0, flags: EV_ERROR, fflags: 0, data: 9 };
    let events = [ok, silent, bad, worse];
    assert_eq!(None, change_error(&events, 2));
    assert_eq!(Some(17), change_error(&events, 3));
    assert_eq!(Some(17), change_error(&events, 4));
    assert_eq!(None, change_error(&events, 0));
}
