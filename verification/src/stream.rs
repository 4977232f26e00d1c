//! The seekable byte stream that the codec works on: its state, what it offers, and one
//! that holds its bytes in memory.

use vstd::prelude::*;
use vstd::slice::{slice_subrange, slice_to_vec};

verus! {

/// What a seekable byte stream is to the codec: the bytes that it holds, the offset at which
/// the next read or write happens, and the length up to which it can grow.
pub struct StreamState {
    pub bytes: Seq<u8>,
    pub position: nat,
    pub capacity: nat,
}

/// `bytes` with `data` laid over it from offset `at` on: `data` replaces what it covers and
/// lengthens `bytes` where it reaches past the end.
pub open spec fn overlaid(bytes: Seq<u8>, at: nat, data: Seq<u8>) -> Seq<u8> {
    let end = if at + data.len() < bytes.len() {
        at + data.len()
    } else {
        bytes.len()
    };
    bytes.take(at as int) + data + bytes.skip(end as int)
}

impl StreamState {
    /// The position lies within the bytes, the bytes within the capacity, and the capacity
    /// within what the machine can address.
    pub open spec fn wf(self) -> bool {
        self.position <= self.bytes.len() <= self.capacity <= usize::MAX
    }

    /// How many bytes lie between the position and the end.
    pub open spec fn available(self) -> nat {
        (self.bytes.len() - self.position) as nat
    }

    /// How many bytes the stream can still take at the position.
    pub open spec fn room(self) -> nat {
        (self.capacity - self.position) as nat
    }

    /// How many bytes a read of up to `count` bytes gets.
    pub open spec fn readable(self, count: nat) -> nat {
        if count <= self.available() {
            count
        } else {
            self.available()
        }
    }

    /// How many bytes a write of `count` bytes places.
    pub open spec fn writable(self, count: nat) -> nat {
        if count <= self.room() {
            count
        } else {
            self.room()
        }
    }

    /// The `count` bytes that follow the position.
    pub open spec fn upcoming(self, count: nat) -> Seq<u8> {
        self.bytes.subrange(self.position as int, (self.position + count) as int)
    }

    /// All the bytes that follow the position.
    pub open spec fn remaining(self) -> Seq<u8> {
        self.bytes.skip(self.position as int)
    }

    /// The same stream at another position.
    pub open spec fn at(self, position: nat) -> StreamState {
        StreamState { bytes: self.bytes, position, capacity: self.capacity }
    }

    /// The stream after a read of up to `count` bytes: the position has moved over what
    /// was there to read.
    pub open spec fn consumed(self, count: nat) -> StreamState {
        self.at(self.position + self.readable(count))
    }

    /// The stream after a move of the position to `target`: a target past the end is
    /// reached only as far as the end.
    pub open spec fn sought(self, target: nat) -> StreamState {
        self.at(
            if target <= self.bytes.len() {
                target
            } else {
                self.bytes.len()
            },
        )
    }

    /// The stream after a write of `data`: as much of `data` as there was room for lies at
    /// the old position, and the position has moved past it.
    pub open spec fn written(self, data: Seq<u8>) -> StreamState {
        let placed = data.take(self.writable(data.len()) as int);
        StreamState {
            bytes: overlaid(self.bytes, self.position, placed),
            position: self.position + placed.len(),
            capacity: self.capacity,
        }
    }
}

/// What was laid over some bytes is found again at the place where it was put.
pub proof fn lemma_overlaid_holds_data(bytes: Seq<u8>, at: nat, data: Seq<u8>)
    requires
        at <= bytes.len(),
    ensures
        overlaid(bytes, at, data).len() >= at + data.len(),
        overlaid(bytes, at, data).len() >= bytes.len(),
        overlaid(bytes, at, data).subrange(at as int, (at + data.len()) as int) == data,
        overlaid(bytes, at, data).take(at as int) == bytes.take(at as int),
{
}

/// Laying down one piece and then the next right behind it is laying down both at once.
pub proof fn lemma_overlaid_twice(bytes: Seq<u8>, at: nat, first: Seq<u8>, second: Seq<u8>)
    requires
        at <= bytes.len(),
    ensures
        overlaid(overlaid(bytes, at, first), at + first.len(), second) == overlaid(
            bytes,
            at,
            first + second,
        ),
{
}

/// Two writes in a row, of which the first found room for all its bytes, leave the stream
/// as one write of both pieces does. So does a first write alone that did not find room.
pub proof fn lemma_written_twice(state: StreamState, first: Seq<u8>, second: Seq<u8>)
    requires
        state.wf(),
    ensures
        first.len() <= state.room() ==> state.written(first).written(second) == state.written(
            first + second,
        ),
        first.len() > state.room() ==> state.written(first) == state.written(first + second),
{
    let both = first + second;
    if first.len() <= state.room() {
        let after = state.written(first);
        assert(first.take(first.len() as int) =~= first);
        let placed = second.take(after.writable(second.len()) as int);
        assert(both.take(state.writable(both.len()) as int) =~= first + placed);
        lemma_overlaid_twice(state.bytes, state.position, first, placed);
    } else {
        assert(both.take(state.room() as int) =~= first.take(state.room() as int));
    }
}

/// A stream of bytes with a position: it reads and writes at the position, which moves
/// with them, and it moves the position on request. The position never lies past the end
/// of the bytes. This is all that the codec asks of a stream; [`MemoryStream`] is one.
pub trait SeekableStream: View<V = StreamState> {
    /// Reads up to `count` bytes at the position and moves past them. Fewer come back only
    /// where the stream ends before.
    fn read(&mut self, count: usize) -> (bytes: Vec<u8>)
        requires
            old(self)@.wf(),
        ensures
            final(self)@ == old(self)@.consumed(count as nat),
            bytes@ == old(self)@.upcoming(old(self)@.readable(count as nat)),
    ;

    /// Writes `data` at the position, over what is there and past the end, and moves past
    /// what it wrote. It says how many bytes it placed: fewer than `data` has only where
    /// the capacity is reached.
    fn write(&mut self, data: &[u8]) -> (accepted: usize)
        requires
            old(self)@.wf(),
        ensures
            final(self)@ == old(self)@.written(data@),
            accepted == old(self)@.writable(data@.len()),
    ;

    /// The position.
    fn position(&self) -> (position: u64)
        requires
            self@.wf(),
        ensures
            position == self@.position,
    ;

    /// Moves the position to `target`, or to the end where `target` lies past it, and says
    /// where it now is.
    fn seek(&mut self, target: u64) -> (reached: u64)
        requires
            old(self)@.wf(),
        ensures
            final(self)@ == old(self)@.sought(target as nat),
            reached == final(self)@.position,
    ;

    /// Moves the position to the end and says where that is.
    fn seek_to_end(&mut self) -> (reached: u64)
        requires
            old(self)@.wf(),
        ensures
            final(self)@ == old(self)@.at(old(self)@.bytes.len()),
            reached == old(self)@.bytes.len(),
    ;
}

/// A seekable stream over bytes held in memory.
pub struct MemoryStream {
    data: Vec<u8>,
    position: usize,
    capacity: usize,
}

impl View for MemoryStream {
    type V = StreamState;

    closed spec fn view(&self) -> StreamState {
        StreamState {
            bytes: self.data@,
            position: self.position as nat,
            capacity: self.capacity as nat,
        }
    }
}

impl MemoryStream {
    /// An empty stream that grows as it is written to.
    pub fn new() -> (stream: MemoryStream)
        ensures
            stream@.wf(),
            stream@ == (StreamState {
                bytes: Seq::empty(),
                position: 0,
                capacity: usize::MAX as nat,
            }),
    {
        MemoryStream { data: Vec::new(), position: 0, capacity: usize::MAX }
    }

    /// A stream over `bytes`, positioned at their start, that grows as it is written to.
    pub fn from_bytes(bytes: Vec<u8>) -> (stream: MemoryStream)
        ensures
            stream@.wf(),
            stream@ == (StreamState { bytes: bytes@, position: 0, capacity: usize::MAX as nat }),
    {
        assert(bytes@.len() == bytes.len());
        MemoryStream { data: bytes, position: 0, capacity: usize::MAX }
    }

    /// A stream over `bytes`, positioned at their start, that cannot grow: a write that
    /// reaches past the end places only the bytes that fit before it.
    pub fn fixed(bytes: Vec<u8>) -> (stream: MemoryStream)
        ensures
            stream@.wf(),
            stream@ == (StreamState { bytes: bytes@, position: 0, capacity: bytes@.len() }),
    {
        let capacity = bytes.len();
        MemoryStream { data: bytes, position: 0, capacity }
    }

    /// The bytes that the stream holds, from its start.
    pub fn as_slice(&self) -> (bytes: &[u8])
        ensures
            bytes@ == self@.bytes,
    {
        self.data.as_slice()
    }

    /// Gives up the stream for the bytes that it holds.
    pub fn into_bytes(self) -> (bytes: Vec<u8>)
        ensures
            bytes@ == self@.bytes,
    {
        self.data
    }
}

impl SeekableStream for MemoryStream {
    fn read(&mut self, count: usize) -> (bytes: Vec<u8>) {
        let available = self.data.len() - self.position;
        let taken = if count <= available {
            count
        } else {
            available
        };
        let bytes = slice_to_vec(
            slice_subrange(self.data.as_slice(), self.position, self.position + taken),
        );
        self.position = self.position + taken;
        bytes
    }

    fn write(&mut self, data: &[u8]) -> (accepted: usize) {
        let room = self.capacity - self.position;
        let accepted = if data.len() <= room {
            data.len()
        } else {
            room
        };
        let start = self.position;
        let mut count: usize = 0;
        while count < accepted
            invariant
                count <= accepted <= data@.len(),
                start + accepted <= self.capacity,
                start <= old(self).data@.len() <= self.capacity,
                self.capacity == old(self).capacity,
                self.position == start == old(self).position,
                self.data@ == overlaid(old(self).data@, start as nat, data@.take(count as int)),
            decreases accepted - count,
        {
            let byte = data[count];
            if start + count < self.data.len() {
                self.data[start + count] = byte;
            } else {
                self.data.push(byte);
            }
            count = count + 1;
        }
        self.position = start + accepted;
        accepted
    }

    fn position(&self) -> (position: u64) {
        self.position as u64
    }

    fn seek(&mut self, target: u64) -> (reached: u64) {
        let end = self.data.len() as u64;
        let reached = if target <= end {
            target
        } else {
            end
        };
        self.position = reached as usize;
        reached
    }

    fn seek_to_end(&mut self) -> (reached: u64) {
        self.position = self.data.len();
        self.position as u64
    }
}

} // verus!
