//! The session index: session ids in the order in which they were saved, as a
//! bare concatenation of fixed-width records. Position 0 is the newest.

use crate::errors::{no_entries_text, out_of_range_text, ReplayError, ReplayResult};
use crate::text::{append_bytes, decode_lossy, text_of};
use vstd::prelude::*;
use vstd::string::*;
use vstd::utf8::*;

verus! {

/// Width of one record, in bytes: a SHA-256 digest in hexadecimal.
pub const INDEX_SIZE: usize = 64;

/// Number of whole records that `bytes` holds.
pub open spec fn entry_count(bytes: Seq<u8>) -> int {
    bytes.len() as int / 64
}

/// True when `bytes` is made of whole records.
pub open spec fn well_formed(bytes: Seq<u8>) -> bool {
    bytes.len() % 64 == 0
}

/// Offset of the record at position `n`, counted from the newest.
pub open spec fn entry_offset(bytes: Seq<u8>, n: int) -> int {
    bytes.len() - (n + 1) * 64
}

/// The record at position `n`, counted from the newest.
pub open spec fn entry(bytes: Seq<u8>, n: int) -> Seq<u8> {
    bytes.subrange(entry_offset(bytes, n), entry_offset(bytes, n) + 64)
}

/// All records, newest first.
pub open spec fn newest_first(bytes: Seq<u8>) -> Seq<Seq<u8>> {
    Seq::new(entry_count(bytes) as nat, |n: int| entry(bytes, n))
}

/// `bytes` without the record at position `n`.
pub open spec fn without_entry(bytes: Seq<u8>, n: int) -> Seq<u8> {
    bytes.subrange(0, entry_offset(bytes, n)) + bytes.subrange(
        entry_offset(bytes, n) + 64,
        bytes.len() as int,
    )
}

/// The id that the record `record` holds, as text: what the record
/// encodes where it is UTF-8, and else its lossy decoding.
pub open spec fn id_text(record: Seq<u8>) -> Seq<char> {
    text_of(record)
}

/// The ids of `bytes`, newest first, as text.
pub open spec fn ids_newest_first(bytes: Seq<u8>) -> Seq<Seq<char>> {
    Seq::new(entry_count(bytes) as nat, |n: int| id_text(entry(bytes, n)))
}

/// What a lookup at position `n` finds in `bytes`.
pub open spec fn lookup(bytes: Seq<u8>, n: int) -> Result<int, Seq<char>> {
    if bytes.len() == 0 {
        Err(no_entries_text())
    } else if n >= entry_count(bytes) {
        Err(out_of_range_text())
    } else {
        Ok(entry_offset(bytes, n))
    }
}

/// In an index made of whole records, a position is out of range exactly
/// when `n * 64` reaches the size.
pub proof fn lemma_out_of_range(bytes: Seq<u8>, n: int)
    requires
        well_formed(bytes),
        0 <= n,
    ensures
        n >= entry_count(bytes) <==> n * 64 >= bytes.len(),
        n < entry_count(bytes) ==> 0 <= entry_offset(bytes, n) <= bytes.len() - 64,
{
}

/// A lookup that succeeds points at a whole record inside the index.
pub proof fn lemma_lookup_in_bounds(bytes: Seq<u8>, n: int)
    requires
        0 <= n < entry_count(bytes),
    ensures
        0 <= entry_offset(bytes, n),
        entry_offset(bytes, n) + 64 <= bytes.len(),
        entry(bytes, n).len() == 64,
{
}

/// Appending one record puts it at position 0 and moves every other record
/// one position back.
pub proof fn lemma_push_is_newest(bytes: Seq<u8>, id: Seq<u8>)
    requires
        id.len() == 64,
    ensures
        entry_count(bytes + id) == entry_count(bytes) + 1,
        well_formed(bytes) ==> well_formed(bytes + id),
        newest_first(bytes + id) == seq![id] + newest_first(bytes),
{
    let after = bytes + id;
    let a = newest_first(after);
    let b = seq![id] + newest_first(bytes);
    assert(a.len() == b.len());
    assert forall|n: int| 0 <= n < a.len() implies a[n] == b[n] by {
        if n == 0 {
            assert(entry(after, 0) =~= id);
        } else {
            assert(entry(after, n) =~= entry(bytes, n - 1));
        }
    }
    assert(a =~= b);
}

/// Three ids pushed one after the other are read back newest first.
pub proof fn lemma_three_pushes(a: Seq<u8>, b: Seq<u8>, c: Seq<u8>)
    requires
        a.len() == 64,
        b.len() == 64,
        c.len() == 64,
    ensures
        newest_first(a + b + c) == seq![c, b, a],
        lookup(a + b + c, 0) is Ok && entry(a + b + c, 0) == c,
        lookup(a + b + c, 1) is Ok && entry(a + b + c, 1) == b,
        lookup(a + b + c, 2) is Ok && entry(a + b + c, 2) == a,
        lookup(a + b + c, 3) == Err::<int, Seq<char>>(out_of_range_text()),
{
    let empty = Seq::<u8>::empty();
    assert(empty + a =~= a);
    assert(newest_first(empty) =~= Seq::<Seq<u8>>::empty());
    lemma_push_is_newest(empty, a);
    lemma_push_is_newest(a, b);
    lemma_push_is_newest(a + b, c);
    assert(newest_first(a + b + c) =~= seq![c, b, a]);
    assert(newest_first(a + b + c)[0] == entry(a + b + c, 0));
    assert(newest_first(a + b + c)[1] == entry(a + b + c, 1));
    assert(newest_first(a + b + c)[2] == entry(a + b + c, 2));
}

/// Removing the record at position `n` leaves every other record as it was,
/// byte for byte and in the same order.
pub proof fn lemma_remove_keeps_others(bytes: Seq<u8>, n: int)
    requires
        0 <= n < entry_count(bytes),
    ensures
        without_entry(bytes, n).len() == bytes.len() - 64,
        well_formed(bytes) ==> well_formed(without_entry(bytes, n)),
        newest_first(without_entry(bytes, n)) == newest_first(bytes).remove(n),
{
    let rest = without_entry(bytes, n);
    let a = newest_first(rest);
    let b = newest_first(bytes).remove(n);
    assert(a.len() == b.len());
    assert forall|i: int| 0 <= i < a.len() implies a[i] == b[i] by {
        if i < n {
            assert(entry(rest, i) =~= entry(bytes, i));
        } else {
            assert(entry(rest, i) =~= entry(bytes, i + 1));
        }
    }
    assert(a =~= b);
}

/// Removing the middle one of three ids leaves the other two, unchanged.
pub proof fn lemma_remove_middle_of_three(a: Seq<u8>, b: Seq<u8>, c: Seq<u8>)
    requires
        a.len() == 64,
        b.len() == 64,
        c.len() == 64,
    ensures
        entry(a + b + c, 1) == b,
        without_entry(a + b + c, 1) == a + c,
        newest_first(without_entry(a + b + c, 1)) == seq![c, a],
{
    lemma_three_pushes(a, b, c);
    lemma_remove_keeps_others(a + b + c, 1);
    assert(without_entry(a + b + c, 1) =~= a + c);
    assert(seq![c, b, a].remove(1) =~= seq![c, a]);
}

/// An id that was pushed is read back as it was: its record is the newest,
/// holds the id's UTF-8 bytes, and decodes to the id.
pub proof fn lemma_pushed_id_is_read_back(bytes: Seq<u8>, id: Seq<char>)
    requires
        encode_utf8(id).len() == 64,
    ensures
        lookup(bytes + encode_utf8(id), 0) is Ok,
        entry(bytes + encode_utf8(id), 0) == encode_utf8(id),
        valid_utf8(entry(bytes + encode_utf8(id), 0)),
        decode_utf8(entry(bytes + encode_utf8(id), 0)) == id,
{
    assert(entry(bytes + encode_utf8(id), 0) =~= encode_utf8(id));
    encode_utf8_valid_utf8(id);
    encode_utf8_decode_utf8(id);
}

/// The walk from the newest to the oldest after three pushes, and after the
/// middle one of the three was removed.
pub proof fn lemma_walk_of_three(a: Seq<u8>, b: Seq<u8>, c: Seq<u8>)
    requires
        a.len() == 64,
        b.len() == 64,
        c.len() == 64,
    ensures
        ids_newest_first(a + b + c) == seq![id_text(c), id_text(b), id_text(a)],
        ids_newest_first(without_entry(a + b + c, 1)) == seq![id_text(c), id_text(a)],
{
    lemma_three_pushes(a, b, c);
    lemma_remove_middle_of_three(a, b, c);
    let all = a + b + c;
    assert(newest_first(all)[0] == entry(all, 0));
    assert(newest_first(all)[1] == entry(all, 1));
    assert(newest_first(all)[2] == entry(all, 2));
    assert(ids_newest_first(all) =~= seq![id_text(c), id_text(b), id_text(a)]);
    let rest = without_entry(all, 1);
    assert(newest_first(rest)[0] == entry(rest, 0));
    assert(newest_first(rest)[1] == entry(rest, 1));
    assert(ids_newest_first(rest) =~= seq![id_text(c), id_text(a)]);
}

/// The content of the index file.
pub struct SessionIndexFile {
    bytes: Vec<u8>,
}

impl View for SessionIndexFile {
    type V = Seq<u8>;

    closed spec fn view(&self) -> Seq<u8> {
        self.bytes@
    }
}

impl SessionIndexFile {
    /// An index without entries.
    pub fn new() -> (r: Self)
        ensures
            r@ == Seq::<u8>::empty(),
    {
        SessionIndexFile { bytes: Vec::new() }
    }

    /// The index whose file holds `bytes`.
    pub fn from_bytes(bytes: Vec<u8>) -> (r: Self)
        ensures
            r@ == bytes@,
    {
        SessionIndexFile { bytes }
    }

    /// The bytes to write back to the file.
    pub fn as_bytes(&self) -> (r: &[u8])
        ensures
            r@ == self@,
    {
        self.bytes.as_slice()
    }

    /// Number of whole records.
    pub fn len(&self) -> (n: usize)
        ensures
            n == entry_count(self@),
    {
        self.bytes.len() / INDEX_SIZE
    }

    /// Appends the bytes of `session_id`, with nothing before or after them.
    pub fn push_session(&mut self, session_id: &str)
        ensures
            final(self)@ == old(self)@ + session_id.spec_bytes(),
    {
        append_bytes(&mut self.bytes, session_id.as_bytes());
    }

    /// Offset of the record at position `n`, 0 being the newest: the size
    /// less `(n + 1) * 64`. An index without entries and a position past the
    /// oldest entry give two different errors.
    pub fn get_id_offset_by_index(&self, n: u32) -> (r: ReplayResult<u64>)
        ensures
            match lookup(self@, n as int) {
                Ok(offset) => r is Ok && r.unwrap() == offset && 0 <= offset && offset + 64
                    <= self@.len(),
                Err(text) => r is Err && r.unwrap_err().is_session_error(text),
            },
    {
        let size = self.bytes.len();
        if size == 0 {
            return Err(ReplayError::no_entries());
        }
        let total = size / INDEX_SIZE;
        if n as usize >= total {
            return Err(ReplayError::out_of_range());
        }
        Ok((size - (n as usize + 1) * INDEX_SIZE) as u64)
    }

    /// The 64 bytes at `offset`, decoded as text.
    pub fn read_id_at(&self, offset: u64) -> (r: String)
        requires
            offset + 64 <= self@.len(),
        ensures
            r@ == id_text(self@.subrange(offset as int, offset + 64)),
            valid_utf8(self@.subrange(offset as int, offset + 64)) ==> r@ == decode_utf8(
                self@.subrange(offset as int, offset + 64),
            ),
    {
        let size = self.bytes.len();
        let start = offset as usize;
        decode_lossy(vstd::slice::slice_subrange(self.bytes.as_slice(), start, start + INDEX_SIZE))
    }

    /// The id at position `n`, 0 being the newest.
    pub fn get_session_id(&self, index: u32) -> (r: ReplayResult<String>)
        ensures
            match lookup(self@, index as int) {
                Ok(_) => r is Ok && r.unwrap()@ == id_text(entry(self@, index as int)) && (
                valid_utf8(entry(self@, index as int)) ==> r.unwrap()@ == decode_utf8(
                    entry(self@, index as int),
                )),
                Err(text) => r is Err && r.unwrap_err().is_session_error(text),
            },
    {
        match self.get_id_offset_by_index(index) {
            Ok(offset) => Ok(self.read_id_at(offset)),
            Err(e) => Err(e),
        }
    }

    /// The newest id; the index stays as it is.
    pub fn peek_session_id(&self) -> (r: ReplayResult<String>)
        ensures
            match lookup(self@, 0) {
                Ok(_) => r is Ok && r.unwrap()@ == id_text(entry(self@, 0)) && (valid_utf8(
                    entry(self@, 0),
                ) ==> r.unwrap()@ == decode_utf8(entry(self@, 0))),
                Err(text) => r is Err && r.unwrap_err().is_session_error(text),
            },
    {
        self.get_session_id(0)
    }

    /// Takes the record at position `n` out of the index and returns its id.
    /// The records before and after it close up, each unchanged. On an error
    /// the index stays as it is.
    pub fn remove_session_id(&mut self, n: u32) -> (r: ReplayResult<String>)
        ensures
            match lookup(old(self)@, n as int) {
                Ok(_) => r is Ok && r.unwrap()@ == id_text(entry(old(self)@, n as int)) && (
                valid_utf8(entry(old(self)@, n as int)) ==> r.unwrap()@ == decode_utf8(
                    entry(old(self)@, n as int),
                )) && final(self)@ == without_entry(old(self)@, n as int),
                Err(text) => r is Err && r.unwrap_err().is_session_error(text) && final(self)@
                    == old(self)@,
            },
    {
        let size = self.bytes.len();
        let offset = match self.get_id_offset_by_index(n) {
            Ok(offset) => offset,
            Err(e) => {
                return Err(e);
            },
        };
        let session_id = self.read_id_at(offset);
        let id_offset = offset as usize;
        let next_id_offset = id_offset + INDEX_SIZE;
        let rest = vstd::slice::slice_to_vec(
            vstd::slice::slice_subrange(self.bytes.as_slice(), next_id_offset, size),
        );
        self.bytes.truncate(id_offset);
        append_bytes(&mut self.bytes, rest.as_slice());
        Ok(session_id)
    }

    /// Takes the newest record out of the index and returns its id.
    pub fn pop_session_id(&mut self) -> (r: ReplayResult<String>)
        ensures
            match lookup(old(self)@, 0) {
                Ok(offset) => r is Ok && r.unwrap()@ == id_text(entry(old(self)@, 0)) && (
                valid_utf8(entry(old(self)@, 0)) ==> r.unwrap()@ == decode_utf8(
                    entry(old(self)@, 0),
                )) && final(self)@ == old(self)@.subrange(0, offset),
                Err(text) => r is Err && r.unwrap_err().is_session_error(text) && final(self)@
                    == old(self)@,
            },
    {
        let r = self.remove_session_id(0);
        proof {
            if lookup(old(self)@, 0) is Ok {
                assert(without_entry(old(self)@, 0) =~= old(self)@.subrange(
                    0,
                    entry_offset(old(self)@, 0),
                ));
            }
        }
        r
    }

    /// A cursor that yields the ids from the newest to the oldest: it
    /// stands before the newest.
    pub fn iter_session_ids_rev(&self) -> (it: RevIndexIter<'_>)
        ensures
            it.source() == self@,
            it.position() == 0,
            it.remaining() == entry_count(self@),
    {
        RevIndexIter::new(self.bytes.as_slice())
    }

    /// All ids, from the newest to the oldest: the id at position `n` is the
    /// one that a lookup at `n` reads.
    pub fn session_ids_rev(&self) -> (r: Vec<String>)
        ensures
            r@.len() == entry_count(self@),
            crate::session::lines_of(r@) == ids_newest_first(self@),
            forall|n: int|
                0 <= n < r@.len() ==> (#[trigger] r@[n])@ == id_text(entry(self@, n)) && (
                valid_utf8(entry(self@, n)) ==> r@[n]@ == decode_utf8(entry(self@, n))),
    {
        let mut it = self.iter_session_ids_rev();
        let mut out: Vec<String> = Vec::new();
        loop
            invariant
                it.source() == self@,
                it.position() == out@.len(),
                it.position() + it.remaining() == entry_count(self@),
                it.remaining() >= 0,
                forall|n: int|
                    0 <= n < out@.len() ==> (#[trigger] out@[n])@ == id_text(entry(self@, n)) && (
                    valid_utf8(entry(self@, n)) ==> out@[n]@ == decode_utf8(entry(self@, n))),
            decreases it.remaining(),
        {
            match it.next() {
                Some(id) => {
                    out.push(id);
                },
                None => {
                    assert(crate::session::lines_of(out@) =~= ids_newest_first(self@));
                    return out;
                },
            }
        }
    }
}

/// A cursor over the records of an index, from the file's end backwards.
pub struct RevIndexIter<'a> {
    bytes: &'a [u8],
    total: usize,
    current: usize,
}

impl<'a> RevIndexIter<'a> {
    /// The bytes that the cursor reads.
    pub closed spec fn source(&self) -> Seq<u8> {
        self.bytes@
    }

    /// Number of records still to come.
    pub closed spec fn remaining(&self) -> int {
        self.current as int
    }

    /// Position, counted from the newest, of the record that comes next.
    pub closed spec fn position(&self) -> int {
        self.total - self.current
    }

    #[verifier::type_invariant]
    spec fn inv(&self) -> bool {
        &&& self.total == entry_count(self.bytes@)
        &&& self.current <= self.total
    }

    /// A cursor placed before the newest record of `bytes`.
    pub fn new(bytes: &'a [u8]) -> (it: Self)
        ensures
            it.source() == bytes@,
            it.remaining() == entry_count(bytes@),
            it.position() == 0,
    {
        let total = bytes.len() / INDEX_SIZE;
        RevIndexIter { bytes, total, current: total }
    }

    /// The next id, or `None` once the oldest has been given.
    pub fn next(&mut self) -> (r: Option<String>)
        ensures
            final(self).source() == old(self).source(),
            old(self).remaining() == 0 ==> r is None && final(self).remaining() == 0
                && final(self).position() == old(self).position(),
            old(self).remaining() > 0 ==> r is Some && r.unwrap()@ == id_text(
                entry(old(self).source(), old(self).position()),
            ) && (valid_utf8(entry(old(self).source(), old(self).position())) ==> r.unwrap()@
                == decode_utf8(entry(old(self).source(), old(self).position())))
                && final(self).remaining() == old(self).remaining() - 1 && final(self).position()
                == old(self).position() + 1,
            final(self).remaining() >= 0,
            final(self).position() + final(self).remaining() == old(self).position() + old(
                self,
            ).remaining(),
    {
        proof {
            use_type_invariant(&*self);
        }
        if self.current == 0 {
            return None;
        }
        let n = self.total - self.current;
        let start = self.bytes.len() - (n + 1) * INDEX_SIZE;
        let id = decode_lossy(vstd::slice::slice_subrange(self.bytes, start, start + INDEX_SIZE));
        self.current -= 1;
        Some(id)
    }
}

} // verus!
