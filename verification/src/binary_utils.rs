//! Moves of the stream position: skipping, aligning to a boundary, and the measures of the
//! stream, with position arithmetic that does not overflow.

use crate::error::CodecError;
use crate::stream::{SeekableStream, StreamState};
use vstd::prelude::*;

verus! {

/// The first multiple of `boundary` that is not below `position`, for a `boundary` that is
/// not zero.
pub open spec fn next_multiple(position: nat, boundary: nat) -> nat {
    if position % boundary == 0 {
        position
    } else {
        (position + boundary - position % boundary) as nat
    }
}

/// How skipping `length` bytes ends on a stream in state `start`, and the state in which it
/// leaves the stream. Skipping nothing does nothing. A target beyond the range of positions
/// gives `PositionOverflow` and moves nothing; a target beyond the end of the stream gives
/// `Truncated` and leaves the stream at its end.
pub open spec fn skipped(start: StreamState, length: nat) -> (Result<(), CodecError>, StreamState) {
    let target = start.position + length;
    if length == 0 {
        (Ok(()), start)
    } else if target > u64::MAX {
        (Err(CodecError::PositionOverflow), start)
    } else if target > start.bytes.len() {
        (Err(CodecError::Truncated), start.sought(target))
    } else {
        (Ok(()), start.sought(target))
    }
}

/// How moving to the next multiple of `alignment` ends on a stream in state `start`, and
/// the state in which it leaves the stream. An alignment of zero gives `InvalidArgument`; a
/// target beyond the range of positions gives `PositionOverflow`; neither moves anything. A
/// target beyond the end of the stream gives `Truncated` and leaves the stream at its end.
pub open spec fn aligned(start: StreamState, alignment: nat) -> (
    Result<(), CodecError>,
    StreamState,
) {
    let target = next_multiple(start.position, alignment);
    if alignment == 0 {
        (Err(CodecError::InvalidArgument), start)
    } else if target > u64::MAX {
        (Err(CodecError::PositionOverflow), start)
    } else if target > start.bytes.len() {
        (Err(CodecError::Truncated), start.sought(target))
    } else {
        (Ok(()), start.sought(target))
    }
}

/// The next multiple is a multiple of the boundary and lies less than one boundary above
/// the position.
pub proof fn lemma_next_multiple(position: nat, boundary: nat)
    requires
        boundary > 0,
    ensures
        next_multiple(position, boundary) % boundary == 0,
        position <= next_multiple(position, boundary) < position + boundary,
{
    let target = next_multiple(position, boundary) as int;
    let size = boundary as int;
    let quotient = position as int / size;
    let rest = position as int % size;
    vstd::arithmetic::div_mod::lemma_fundamental_div_mod(position as int, size);
    if rest != 0 {
        assert(target == (quotient + 1) * size) by (nonlinear_arith)
            requires
                position == size * quotient + rest,
                target == position + size - rest,
        ;
        vstd::arithmetic::div_mod::lemma_mod_multiples_basic(quotient + 1, size);
    }
}

/// No multiple of the boundary lies between the position and the next multiple.
pub proof fn lemma_next_multiple_is_first(position: nat, boundary: nat, other: nat)
    requires
        boundary > 0,
        position <= other,
        other % boundary == 0,
    ensures
        next_multiple(position, boundary) <= other,
{
    let target = next_multiple(position, boundary) as int;
    let size = boundary as int;
    let quotient = position as int / size;
    let rest = position as int % size;
    let factor = other as int / size;
    vstd::arithmetic::div_mod::lemma_fundamental_div_mod(position as int, size);
    vstd::arithmetic::div_mod::lemma_fundamental_div_mod(other as int, size);
    if other < target {
        assert(false) by (nonlinear_arith)
            requires
                size > 0,
                other == size * factor,
                position == size * quotient + rest,
                0 < rest < size,
                position <= other < position + size - rest,
        ;
    }
}

/// A position that is a multiple of the boundary is its own next multiple, so aligning
/// twice moves no further than aligning once.
pub proof fn lemma_next_multiple_is_stable(position: nat, boundary: nat)
    requires
        boundary > 0,
    ensures
        position % boundary == 0 ==> next_multiple(position, boundary) == position,
        next_multiple(next_multiple(position, boundary), boundary) == next_multiple(
            position,
            boundary,
        ),
{
    lemma_next_multiple(position, boundary);
}

/// The position that lies `length` bytes after `position`, or `PositionOverflow` where that
/// is beyond the range of positions.
pub fn skip_target(position: u64, length: usize) -> (r: Result<u64, CodecError>)
    ensures
        match r {
            Ok(target) => target == position + length,
            Err(error) => position + length > u64::MAX && error == CodecError::PositionOverflow,
        },
{
    match position.checked_add(length as u64) {
        Some(target) => Ok(target),
        None => Err(CodecError::PositionOverflow),
    }
}

/// The first multiple of `alignment` that is not below `position`. An alignment of zero
/// gives `InvalidArgument`; a multiple beyond the range of positions gives
/// `PositionOverflow`.
pub fn aligned_target(position: u64, alignment: u64) -> (r: Result<u64, CodecError>)
    ensures
        match r {
            Ok(target) => alignment != 0 && target == next_multiple(
                position as nat,
                alignment as nat,
            ),
            Err(error) => if alignment == 0 {
                error == CodecError::InvalidArgument
            } else {
                next_multiple(position as nat, alignment as nat) > u64::MAX && error
                    == CodecError::PositionOverflow
            },
        },
{
    if alignment == 0 {
        return Err(CodecError::InvalidArgument);
    }
    let rest = position % alignment;
    if rest == 0 {
        return Ok(position);
    }
    match position.checked_add(alignment - rest) {
        Some(target) => Ok(target),
        None => Err(CodecError::PositionOverflow),
    }
}

/// Whether a move of the position got where it was meant to: `Truncated` where the
/// position `reached` is not the `target`.
pub fn landing(target: u64, reached: u64) -> (r: Result<(), CodecError>)
    ensures
        r == (if reached == target {
            Ok(())
        } else {
            Err(CodecError::Truncated)
        }),
{
    if reached != target {
        return Err(CodecError::Truncated);
    }
    Ok(())
}

/// Moves of the position of a seekable stream, and its measures.
pub trait BinaryUtils: SeekableStream {
    /// Moves the position `length` bytes on without reading them. Skipping nothing never
    /// fails and asks nothing of the stream.
    fn ignore(&mut self, length: usize) -> (r: Result<(), CodecError>)
        requires
            old(self)@.wf(),
        ensures
            r == skipped(old(self)@, length as nat).0,
            final(self)@ == skipped(old(self)@, length as nat).1,
            length == 0 ==> r == Ok::<(), CodecError>(()) && final(self)@ == old(self)@,
    ;

    /// Moves the position to the next multiple of `alignment`, or leaves it where it is one.
    fn next_alignment(&mut self, alignment: u64) -> (r: Result<(), CodecError>)
        requires
            old(self)@.wf(),
        ensures
            r == aligned(old(self)@, alignment as nat).0,
            final(self)@ == aligned(old(self)@, alignment as nat).1,
    ;

    /// The position.
    fn tell(&mut self) -> (r: Result<u64, CodecError>)
        requires
            old(self)@.wf(),
        ensures
            final(self)@ == old(self)@,
            r matches Ok(position) && position == old(self)@.position,
    ;

    /// The number of bytes that the stream holds. The stream is moved to its end to find
    /// it, and back to where it was.
    fn buffer_size(&mut self) -> (r: Result<usize, CodecError>)
        requires
            old(self)@.wf(),
        ensures
            final(self)@ == old(self)@,
            r matches Ok(size) && size == old(self)@.bytes.len(),
    ;
}

impl<S: SeekableStream> BinaryUtils for S {
    fn ignore(&mut self, length: usize) -> (r: Result<(), CodecError>) {
        if length == 0 {
            return Ok(());
        }
        let target = skip_target(self.position(), length)?;
        let reached = self.seek(target);
        landing(target, reached)
    }

    fn next_alignment(&mut self, alignment: u64) -> (r: Result<(), CodecError>) {
        let target = aligned_target(self.position(), alignment)?;
        let reached = self.seek(target);
        landing(target, reached)
    }

    fn tell(&mut self) -> (r: Result<u64, CodecError>) {
        Ok(self.position())
    }

    fn buffer_size(&mut self) -> (r: Result<usize, CodecError>) {
        let current = self.position();
        let size = self.seek_to_end();
        self.seek(current);
        Ok(size as usize)
    }
}

} // verus!
