//! The slot as the protocol sees it: a byte buffer of fixed size with a
//! cursor.
//!
//! The lock that guards a slot and the shared memory behind it stay with the
//! caller. A [`SlotStream`] holds the slot's bytes while a message is written
//! or read, and gives them back when that is done.

use crate::error::FusionError;
use vstd::prelude::*;
use vstd::slice::slice_subrange;

verus! {

/// What a [`SlotStream`] is to the contracts: the slot's bytes and the
/// cursor's place among them.
pub struct SlotView {
    pub bytes: Seq<u8>,
    pub pos: int,
}

impl SlotView {
    /// The cursor lies within the slot.
    pub open spec fn wf(self) -> bool {
        0 <= self.pos <= self.bytes.len()
    }

    /// The bytes before the cursor.
    pub open spec fn before(self) -> Seq<u8> {
        self.bytes.subrange(0, self.pos)
    }

    /// The bytes from the cursor to the end of the slot.
    pub open spec fn ahead(self) -> Seq<u8> {
        self.bytes.subrange(self.pos, self.bytes.len() as int)
    }

    /// The number of bytes from the cursor to the end of the slot.
    pub open spec fn room(self) -> int {
        self.bytes.len() - self.pos
    }

    /// The slot `self` has the size of `earlier` and, up to the cursor of
    /// `earlier`, its bytes.
    pub open spec fn keeps_before(self, earlier: SlotView) -> bool {
        &&& self.bytes.len() == earlier.bytes.len()
        &&& self.bytes.subrange(0, earlier.pos) == earlier.before()
    }

    /// The same bytes with the cursor at `pos`.
    pub open spec fn at(self, pos: int) -> SlotView {
        SlotView { bytes: self.bytes, pos }
    }

    /// The slot after `data` was written at the cursor: `data` replaces the
    /// bytes it covers, and the cursor stands behind it.
    pub open spec fn put(self, data: Seq<u8>) -> SlotView {
        SlotView {
            bytes: self.before() + data + self.bytes.subrange(
                self.pos + data.len(),
                self.bytes.len() as int,
            ),
            pos: self.pos + data.len(),
        }
    }
}

/// Writing `a` and then `b` is writing `a + b`.
pub proof fn lemma_put_twice(v: SlotView, a: Seq<u8>, b: Seq<u8>)
    requires
        v.wf(),
        a.len() + b.len() <= v.room(),
    ensures
        v.put(a).put(b) == v.put(a + b),
{
    assert(v.put(a).put(b).bytes =~= v.put(a + b).bytes);
}

/// After a write that fits, the written bytes stand between the old cursor
/// and the new one, the slot has kept its size, and what was before the old
/// cursor is as it was.
pub proof fn lemma_put_shape(v: SlotView, data: Seq<u8>)
    requires
        v.wf(),
        data.len() <= v.room(),
    ensures
        v.put(data).wf(),
        v.put(data).room() == v.room() - data.len(),
        v.put(data).before() == v.before() + data,
        v.put(data).keeps_before(v),
        v.put(data).bytes.subrange(v.pos, v.pos + data.len()) == data,
{
    let w = v.put(data);
    assert(w.bytes.len() == v.bytes.len());
    assert(w.before() =~= v.before() + data);
    assert(w.bytes.subrange(0, v.pos) =~= v.before());
    assert(w.bytes.subrange(v.pos, v.pos + data.len()) =~= data);
}

/// A slot's bytes with a cursor. The cursor never leaves the slot, and no
/// operation changes the slot's size.
pub struct SlotStream {
    buf: Vec<u8>,
    pos: usize,
}

impl View for SlotStream {
    type V = SlotView;

    closed spec fn view(&self) -> SlotView {
        SlotView { bytes: self.buf@, pos: self.pos as int }
    }
}

impl SlotStream {
    #[verifier::type_invariant]
    spec fn cursor_inside(self) -> bool {
        self.pos <= self.buf.len()
    }

    /// A slot of `capacity` zero bytes, the cursor at its start.
    pub fn new(capacity: usize) -> (stream: SlotStream)
        ensures
            stream@.bytes == Seq::new(capacity as nat, |i: int| 0u8),
            stream@.pos == 0,
    {
        let buf = vec![0u8; capacity];
        assert(buf@ =~= Seq::new(capacity as nat, |i: int| 0u8));
        SlotStream { buf, pos: 0 }
    }

    /// A stream over the bytes of a slot, the cursor at their start.
    pub fn from_bytes(bytes: Vec<u8>) -> (stream: SlotStream)
        ensures
            stream@.bytes == bytes@,
            stream@.pos == 0,
    {
        SlotStream { buf: bytes, pos: 0 }
    }

    /// The slot's bytes, the cursor given up.
    pub fn into_bytes(self) -> (bytes: Vec<u8>)
        ensures
            bytes@ == self@.bytes,
    {
        self.buf
    }

    /// The whole slot, wherever the cursor stands.
    pub fn as_bytes(&self) -> (bytes: &[u8])
        ensures
            bytes@ == self@.bytes,
    {
        self.buf.as_slice()
    }

    /// The slot's size in bytes.
    pub fn capacity(&self) -> (n: usize)
        ensures
            n == self@.bytes.len(),
            self@.wf(),
    {
        proof {
            use_type_invariant(self);
        }
        self.buf.len()
    }

    /// The cursor: the number of bytes before it.
    pub fn position(&self) -> (pos: usize)
        ensures
            pos == self@.pos,
            self@.wf(),
    {
        proof {
            use_type_invariant(self);
        }
        self.pos
    }

    /// The number of bytes from the cursor to the end of the slot.
    pub fn remaining(&self) -> (n: usize)
        ensures
            n == self@.room(),
            self@.wf(),
    {
        proof {
            use_type_invariant(self);
        }
        self.buf.len() - self.pos
    }

    /// Puts the cursor back at the start of the slot.
    pub fn reset(&mut self)
        ensures
            final(self)@ == old(self)@.at(0),
    {
        self.pos = 0;
    }

    /// The next `n` bytes, the cursor left where it is. Fails, with
    /// `SlotOverflow`, exactly when fewer than `n` bytes are ahead.
    pub fn look_ahead(&self, n: usize) -> (r: Result<&[u8], FusionError>)
        ensures
            self@.wf(),
            match r {
                Ok(bytes) => n <= self@.room() && bytes@ == self@.bytes.subrange(
                    self@.pos,
                    self@.pos + n,
                ),
                Err(e) => n > self@.room() && e == FusionError::SlotOverflow,
            },
    {
        proof {
            use_type_invariant(self);
        }
        if n > self.buf.len() - self.pos {
            return Err(FusionError::SlotOverflow);
        }
        Ok(slice_subrange(self.buf.as_slice(), self.pos, self.pos + n))
    }

    /// All the bytes from the cursor to the end of the slot, the cursor left
    /// where it is.
    pub fn peek_rest(&self) -> (bytes: &[u8])
        ensures
            self@.wf(),
            bytes@ == self@.ahead(),
    {
        proof {
            use_type_invariant(self);
        }
        slice_subrange(self.buf.as_slice(), self.pos, self.buf.len())
    }

    /// Moves the cursor `n` bytes forward without reading them. Fails, with
    /// `SlotOverflow` and the cursor unmoved, exactly when fewer than `n`
    /// bytes are ahead.
    pub fn rewind(&mut self, n: usize) -> (r: Result<(), FusionError>)
        ensures
            old(self)@.wf(),
            match r {
                Ok(()) => n <= old(self)@.room() && final(self)@ == old(self)@.at(
                    old(self)@.pos + n,
                ),
                Err(e) => n > old(self)@.room() && e == FusionError::SlotOverflow && final(self)@
                    == old(self)@,
            },
    {
        proof {
            use_type_invariant(&*self);
        }
        if n > self.buf.len() - self.pos {
            return Err(FusionError::SlotOverflow);
        }
        self.pos = self.pos + n;
        Ok(())
    }

    /// Moves the cursor over `n` bytes that are known to be ahead.
    pub(crate) fn advance(&mut self, n: usize)
        requires
            n <= old(self)@.room(),
        ensures
            final(self)@ == old(self)@.at(old(self)@.pos + n),
    {
        proof {
            use_type_invariant(&*self);
        }
        self.pos = self.pos + n;
    }

    /// Writes `data` at the cursor and moves the cursor behind it. Fails,
    /// with `SlotOverflow` and nothing written, exactly when `data` is longer
    /// than the room ahead.
    pub fn write_bytes(&mut self, data: &[u8]) -> (r: Result<(), FusionError>)
        ensures
            old(self)@.wf(),
            match r {
                Ok(()) => data@.len() <= old(self)@.room() && final(self)@ == old(self)@.put(
                    data@,
                ),
                Err(e) => data@.len() > old(self)@.room() && e == FusionError::SlotOverflow
                    && final(self)@ == old(self)@,
            },
    {
        proof {
            use_type_invariant(&*self);
        }
        let n = data.len();
        if n > self.buf.len() - self.pos {
            return Err(FusionError::SlotOverflow);
        }
        let start = self.pos;
        let mut i: usize = 0;
        while i < n
            invariant
                i <= n,
                n == data@.len(),
                start + n <= self.buf.len(),
                self.pos == start,
                self.buf@.len() == old(self).buf@.len(),
                self.buf@ == old(self).buf@.subrange(0, start as int) + data@.subrange(0, i as int)
                    + old(self).buf@.subrange(start + i, old(self).buf@.len() as int),
            decreases n - i,
        {
            self.buf[start + i] = data[i];
            i = i + 1;
        }
        assert(data@.subrange(0, n as int) == data@);
        self.pos = start + n;
        Ok(())
    }
}

} // verus!
