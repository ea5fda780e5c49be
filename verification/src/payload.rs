//! The byte-payload model.
//!
//! A stored payload is a whole byte sequence kept under a name.  This module
//! says, as spec functions, what an offset-addressed read returns from such a
//! payload and what an offset-addressed write leaves behind, and proves the
//! laws the file interface promises: round trips, zero-filled gaps, no
//! clobbering outside the written range, short reads past the end, and the
//! shape of two serialized writes.

use vstd::pervasive::VecAdditionalExecFns;
use vstd::prelude::*;

verus! {

/// The payload stored under `name`, or the empty payload when the store holds
/// nothing under it: an absent file reads as empty.
pub open spec fn stored_payload(m: Map<Seq<char>, Seq<u8>>, name: Seq<char>) -> Seq<u8> {
    if m.contains_key(name) {
        m[name]
    } else {
        Seq::<u8>::empty()
    }
}

/// How many bytes a read of `want` bytes at `off` yields from payload `p`:
/// none past the end, otherwise what is available, capped at `want`.
pub open spec fn read_len(p: Seq<u8>, off: nat, want: nat) -> nat {
    if off >= p.len() {
        0
    } else if off + want <= p.len() {
        want
    } else {
        (p.len() - off) as nat
    }
}

/// The buffer after a read at `off`: its first `read_len` bytes are copied
/// from the payload, the rest of it keeps what it held.
pub open spec fn read_fill(p: Seq<u8>, off: nat, buf: Seq<u8>) -> Seq<u8> {
    if off >= p.len() {
        buf
    } else {
        let n = read_len(p, off, buf.len());
        p.subrange(off as int, (off + n) as int) + buf.skip(n as int)
    }
}

/// The payload length after writing `data` at `off`: a write never truncates,
/// and extends the payload exactly as far as it reaches.
pub open spec fn written_len(p: Seq<u8>, off: nat, data: Seq<u8>) -> nat {
    if off + data.len() > p.len() {
        off + data.len()
    } else {
        p.len()
    }
}

/// The payload after writing `data` at `off`: the written range holds `data`,
/// bytes outside it keep their old value, and a gap between the old end and
/// `off` is filled with zero bytes.
pub open spec fn write_merge(p: Seq<u8>, off: nat, data: Seq<u8>) -> Seq<u8> {
    Seq::new(
        written_len(p, off, data),
        |i: int|
            if off <= i < off + data.len() {
                data[i - off]
            } else if i < p.len() {
                p[i]
            } else {
                0u8
            },
    )
}

/// Round trip: after `data` is written at offset zero, a read of `data.len()`
/// bytes at offset zero yields exactly `data`, whatever the payload held
/// before and whatever the read buffer held.
pub proof fn lemma_write_then_read_round_trip(p: Seq<u8>, data: Seq<u8>, buf: Seq<u8>)
    requires
        buf.len() == data.len(),
    ensures
        read_len(write_merge(p, 0, data), 0, data.len()) == data.len(),
        read_fill(write_merge(p, 0, data), 0, buf) == data,
{
    assert(read_fill(write_merge(p, 0, data), 0, buf) =~= data);
}

/// Writing at an offset into a previously empty payload yields a payload of
/// length `off + data.len()` whose first `off` bytes are zero and whose tail
/// is `data`.
pub proof fn lemma_write_into_empty(off: nat, data: Seq<u8>)
    requires
        off > 0,
    ensures
        write_merge(Seq::<u8>::empty(), off, data).len() == off + data.len(),
        forall|i: int| 0 <= i < off ==> write_merge(Seq::<u8>::empty(), off, data)[i] == 0u8,
        forall|i: int|
            off <= i < off + data.len() ==> write_merge(Seq::<u8>::empty(), off, data)[i]
                == data[i - off],
{
}

/// No clobbering: a write strictly inside an existing payload keeps the
/// payload's length, places `data` in the written range, and leaves every
/// byte outside that range exactly as it was.
pub proof fn lemma_write_inside_no_clobber(p: Seq<u8>, off: nat, data: Seq<u8>)
    requires
        off + data.len() <= p.len(),
    ensures
        write_merge(p, off, data).len() == p.len(),
        forall|i: int|
            0 <= i < p.len() && !(off <= i < off + data.len()) ==> write_merge(p, off, data)[i]
                == p[i],
        forall|i: int| off <= i < off + data.len() ==> write_merge(p, off, data)[i] == data[i - off],
{
}

/// A read at or past the payload's end yields no bytes and leaves the buffer
/// untouched, whatever its length.
pub proof fn lemma_read_past_end(p: Seq<u8>, off: nat, buf: Seq<u8>)
    requires
        off >= p.len(),
    ensures
        read_len(p, off, buf.len()) == 0,
        read_fill(p, off, buf) == buf,
{
}

/// Serialized writes never tear: after two writes land one after the other,
/// every byte of the payload comes whole from the later write, else from the
/// earlier one, else from the original payload, else from gap filling - never
/// from a blend of the two writes.
pub proof fn lemma_serialized_writes_do_not_tear(
    p: Seq<u8>,
    off1: nat,
    data1: Seq<u8>,
    off2: nat,
    data2: Seq<u8>,
)
    ensures
        ({
            let once = write_merge(p, off1, data1);
            let twice = write_merge(once, off2, data2);
            &&& twice.len() == written_len(once, off2, data2)
            &&& forall|i: int| off2 <= i < off2 + data2.len() ==> twice[i] == data2[i - off2]
            &&& forall|i: int|
                0 <= i < twice.len() && !(off2 <= i < off2 + data2.len()) && off1 <= i < off1
                    + data1.len() ==> twice[i] == data1[i - off1]
            &&& forall|i: int|
                0 <= i < twice.len() && !(off2 <= i < off2 + data2.len()) && !(off1 <= i < off1
                    + data1.len()) && i < p.len() ==> twice[i] == p[i]
            &&& forall|i: int|
                0 <= i < twice.len() && !(off2 <= i < off2 + data2.len()) && !(off1 <= i < off1
                    + data1.len()) && i >= p.len() ==> twice[i] == 0u8
        }),
{
}

/// The last writer wins: when the later of two serialized writes covers the
/// range of the earlier one, the payload ends exactly as if only the later
/// write had been applied.
pub proof fn lemma_last_writer_wins(p: Seq<u8>, off: nat, data1: Seq<u8>, data2: Seq<u8>)
    requires
        data1.len() <= data2.len(),
    ensures
        write_merge(write_merge(p, off, data1), off, data2) == write_merge(p, off, data2),
{
    assert(write_merge(write_merge(p, off, data1), off, data2) =~= write_merge(p, off, data2));
}

/// A fresh copy of the given bytes.
pub fn copy_bytes(v: &[u8]) -> (r: Vec<u8>)
    ensures
        r@ == v@,
{
    let mut r: Vec<u8> = Vec::new();
    let mut i: usize = 0;
    while i < v.len()
        invariant
            i <= v@.len(),
            r@ == v@.take(i as int),
        decreases v@.len() - i,
    {
        r.push(v[i]);
        proof {
            assert(r@ =~= v@.take(i + 1));
        }
        i = i + 1;
    }
    proof {
        assert(v@.take(v@.len() as int) =~= v@);
    }
    r
}

/// The executable form of [`write_merge`]: a fresh payload with `data` merged
/// into `p` at offset `off`.
pub fn merge_bytes(p: &Vec<u8>, off: u64, data: &[u8]) -> (r: Vec<u8>)
    requires
        off + data@.len() <= usize::MAX,
    ensures
        r@ == write_merge(p@, off as nat, data@),
{
    let off_us: usize = off as usize;
    let end: usize = if off_us + data.len() > p.len() {
        off_us + data.len()
    } else {
        p.len()
    };
    let mut r: Vec<u8> = Vec::new();
    let mut i: usize = 0;
    while i < end
        invariant
            i <= end,
            end == written_len(p@, off as nat, data@),
            off as nat == off_us as nat,
            r@.len() == i,
            forall|j: int| 0 <= j < i ==> r@[j] == write_merge(p@, off as nat, data@)[j],
        decreases end - i,
    {
        let b: u8 = if off_us <= i && i < off_us + data.len() {
            data[i - off_us]
        } else if i < p.len() {
            p[i]
        } else {
            0u8
        };
        r.push(b);
        i = i + 1;
    }
    proof {
        assert(r@ =~= write_merge(p@, off as nat, data@));
    }
    r
}

/// The executable form of [`read_fill`]: copies bytes from `p` starting at
/// `off` into the front of `buf`, leaves the rest of `buf` alone, and returns
/// how many bytes were copied.
pub fn read_bytes_into(p: &Vec<u8>, off: u64, buf: &mut Vec<u8>) -> (n: usize)
    ensures
        final(buf)@.len() == old(buf)@.len(),
        n == read_len(p@, off as nat, old(buf)@.len()),
        final(buf)@ == read_fill(p@, off as nat, old(buf)@),
{
    if off >= p.len() as u64 {
        return 0;
    }
    let off_us: usize = off as usize;
    let avail: usize = p.len() - off_us;
    let n: usize = if avail < buf.len() {
        avail
    } else {
        buf.len()
    };
    let mut j: usize = 0;
    while j < n
        invariant
            j <= n,
            off as nat == off_us as nat,
            off_us + n <= p.len(),
            n <= buf@.len(),
            buf@.len() == old(buf)@.len(),
            forall|k: int| 0 <= k < j ==> buf@[k] == p@[off_us + k],
            forall|k: int| j <= k < buf@.len() ==> buf@[k] == old(buf)@[k],
        decreases n - j,
    {
        let b: u8 = p[off_us + j];
        buf.set(j, b);
        j = j + 1;
    }
    proof {
        assert(buf@ =~= read_fill(p@, off as nat, old(buf)@));
    }
    n
}

} // verus!
