//! Line buffer: an append-only byte accumulator with a read cursor that
//! yields complete separator-delimited text lines, keeping a trailing
//! partial line across appends.  Consumed bytes are compacted away before
//! each append, so memory stays bounded by the longest unterminated line
//! plus one read's worth of new bytes.

use vstd::prelude::*;

verus! {

/// Errors surfaced while following a log: an operating-system error carrying
/// the raw error number, or bytes that were not valid text where a line was
/// expected.
#[derive(Debug, PartialEq, Eq, Structural, Clone, Copy)]
pub enum Error {
    IoError(i32),
    Utf8Error,
}

/// The characters that a byte sequence decodes to when it is valid UTF-8,
/// `None` when it is not.
pub uninterp spec fn utf8_of(bytes: Seq<u8>) -> Option<Seq<char>>;

/// Relies on `String::from_utf8`: succeeds exactly on valid UTF-8, the
/// decoding depends on the bytes alone, and ASCII bytes decode to
/// themselves.
#[verifier::external_body]
fn decode_utf8(bytes: Vec<u8>) -> (r: Option<String>)
    ensures
        r is Some <==> utf8_of(bytes@) is Some,
        r is Some ==> r.unwrap()@ == utf8_of(bytes@).unwrap(),
        (forall|i: int| 0 <= i < bytes@.len() ==> bytes@[i] < 128) ==> {
            &&& r is Some
            &&& r.unwrap()@.len() == bytes@.len()
            &&& (forall|i: int| 0 <= i < bytes@.len() ==> r.unwrap()@[i] == bytes@[i] as char)
        },
{
    String::from_utf8(bytes).ok()
}

/// Index of the first occurrence of `sep` at or after `from`, if any.
pub open spec fn first_sep(bytes: Seq<u8>, sep: u8, from: int) -> Option<int>
    decreases bytes.len() - from,
{
    if !(0 <= from < bytes.len()) {
        None
    } else if bytes[from] == sep {
        Some(from)
    } else {
        first_sep(bytes, sep, from + 1)
    }
}

proof fn lemma_first_sep_at(bytes: Seq<u8>, sep: u8, from: int, i: int)
    requires
        0 <= from <= i <= bytes.len(),
        forall|j: int| from <= j < i ==> bytes[j] != sep,
    ensures
        i == bytes.len() ==> first_sep(bytes, sep, from) is None,
        i < bytes.len() && bytes[i] == sep ==> first_sep(bytes, sep, from) == Some(i),
    decreases i - from,
{
    if from < i {
        lemma_first_sep_at(bytes, sep, from + 1, i);
    }
}

/// The line buffer: `bytes` is everything read and not yet compacted away,
/// `cursor` marks how much of it has been consumed as lines, `sep` is the
/// line separator.
pub struct Buf {
    pub bytes: Vec<u8>,
    pub cursor: usize,
    pub sep: u8,
}

impl Buf {
    pub open spec fn wf(self) -> bool {
        self.cursor <= self.bytes@.len()
    }

    /// Bytes read but not yet consumed as lines.
    pub open spec fn pending(self) -> Seq<u8> {
        self.bytes@.skip(self.cursor as int)
    }

    pub fn new(sep: u8) -> (b: Buf)
        ensures
            b.wf(),
            b.sep == sep,
            b.cursor == 0,
            b.bytes@ =~= Seq::<u8>::empty(),
    {
        Buf { bytes: Vec::new(), cursor: 0, sep }
    }

    /// Moves the unconsumed bytes to the front of storage and resets the
    /// cursor, reclaiming everything already consumed.
    fn compact(&mut self)
        requires
            old(self).wf(),
        ensures
            final(self).wf(),
            final(self).cursor == 0,
            final(self).sep == old(self).sep,
            final(self).bytes@ == old(self).pending(),
    {
        if self.cursor > 0 {
            let mut kept: Vec<u8> = Vec::new();
            let mut i = self.cursor;
            while i < self.bytes.len()
                invariant
                    old(self).cursor <= i <= self.bytes@.len(),
                    self == old(self),
                    kept@ =~= self.bytes@.subrange(old(self).cursor as int, i as int),
                decreases self.bytes@.len() - i,
            {
                let b = self.bytes[i];
                kept.push(b);
                proof {
                    assert(self.bytes@.subrange(old(self).cursor as int, i + 1) =~= self.bytes@
                        .subrange(old(self).cursor as int, i as int).push(self.bytes@[i as int]));
                }
                i = i + 1;
            }
            proof {
                assert(kept@ =~= old(self).pending());
            }
            self.bytes = kept;
            self.cursor = 0;
        } else {
            proof {
                assert(self.bytes@.skip(0) =~= self.bytes@);
            }
        }
    }

    /// Appends raw bytes after compacting: the new storage is exactly the
    /// previously unconsumed bytes followed by `data`.  A fill only appends;
    /// it never overwrites unconsumed bytes.
    pub fn append(&mut self, data: &[u8])
        requires
            old(self).wf(),
        ensures
            final(self).wf(),
            final(self).cursor == 0,
            final(self).sep == old(self).sep,
            final(self).bytes@ == old(self).pending() + data@,
    {
        self.compact();
        let ghost base = self.bytes@;
        let mut i: usize = 0;
        while i < data.len()
            invariant
                i <= data@.len(),
                self.cursor == 0,
                self.sep == old(self).sep,
                self.bytes@ =~= base + data@.take(i as int),
            decreases data@.len() - i,
        {
            let b = data[i];
            self.bytes.push(b);
            proof {
                assert(base + data@.take(i + 1) =~= (base + data@.take(i as int)).push(
                    data@[i as int],
                ));
            }
            i = i + 1;
        }
        proof {
            assert(base + data@.take(data@.len() as int) =~= base + data@);
        }
    }

    /// Produces the next complete line, if one is buffered.  Scans from the
    /// cursor for the separator; when found, the bytes strictly before it
    /// are consumed (the cursor moves past the separator whether or not
    /// they decode) and returned as text, or `Utf8Error` if they are not
    /// valid text; an all-ASCII line always decodes, to its own bytes as
    /// characters.  Without a separator nothing is consumed and no line is
    /// returned.  Lines come out in input order and never twice.
    pub fn next_line(&mut self) -> (r: Result<Option<String>, Error>)
        requires
            old(self).wf(),
        ensures
            final(self).wf(),
            final(self).sep == old(self).sep,
            final(self).bytes@ == old(self).bytes@,
            ({
                let found = first_sep(old(self).bytes@, old(self).sep, old(self).cursor as int);
                match found {
                    Option::None => r == Ok::<Option<String>, Error>(None) && final(self).cursor
                        == old(self).cursor,
                    Option::Some(i) => {
                        let slice = old(self).bytes@.subrange(old(self).cursor as int, i);
                        &&& final(self).cursor == i + 1
                        &&& match utf8_of(slice) {
                            Option::Some(cs) => r matches Ok(Some(s)) && s@ == cs,
                            Option::None => r == Err::<Option<String>, Error>(Error::Utf8Error),
                        }
                        &&& (forall|j: int| 0 <= j < slice.len() ==> slice[j] < 128) ==> (r matches Ok(Some(s))
                            && s@.len() == slice.len() && (forall|j: int|
                            0 <= j < slice.len() ==> s@[j] == slice[j] as char))
                    },
                }
            }),
    {
        let len = self.bytes.len();
        let mut i = self.cursor;
        while i < len && self.bytes[i] != self.sep
            invariant
                self == old(self),
                len == self.bytes@.len(),
                old(self).cursor <= i <= len,
                forall|j: int| old(self).cursor <= j < i ==> self.bytes@[j] != self.sep,
            decreases len - i,
        {
            i = i + 1;
        }
        proof {
            lemma_first_sep_at(self.bytes@, self.sep, self.cursor as int, i as int);
        }
        if i == len {
            return Ok(None);
        }
        let start = self.cursor;
        self.cursor = i + 1;
        let mut line: Vec<u8> = Vec::new();
        let mut j = start;
        while j < i
            invariant
                start <= j <= i < self.bytes@.len(),
                self.bytes@ == old(self).bytes@,
                line@ =~= self.bytes@.subrange(start as int, j as int),
            decreases i - j,
        {
            let b = self.bytes[j];
            line.push(b);
            proof {
                assert(self.bytes@.subrange(start as int, j + 1) =~= self.bytes@.subrange(
                    start as int,
                    j as int,
                ).push(self.bytes@[j as int]));
            }
            j = j + 1;
        }
        match decode_utf8(line) {
            Some(s) => Ok(Some(s)),
            None => Err(Error::Utf8Error),
        }
    }
}

} // verus!