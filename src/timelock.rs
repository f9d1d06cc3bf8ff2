use vstd::prelude::*;

verus! {

/// The sequence value that disables both relative and absolute lock times.
pub const SEQUENCE_MAX: u32 = 0xFFFF_FFFF;

/// Set in a sequence value when it encodes no relative lock time.
pub const SEQUENCE_DISABLE_FLAG: u32 = 0x8000_0000;

/// Set in a relative lock time measured in units of 512 seconds.
pub const SEQUENCE_TYPE_FLAG: u32 = 0x0040_0000;

/// The bits of a sequence value that hold the relative lock time.
pub const SEQUENCE_VALUE_MASK: u32 = 0x0000_FFFF;

/// Absolute lock times below this are block heights, the others are timestamps.
pub const LOCK_TIME_THRESHOLD: u32 = 500_000_000;

/// Whether an input with this sequence lets the transaction's absolute lock time apply.
pub open spec fn enables_absolute_spec(sequence: u32) -> bool {
    sequence != SEQUENCE_MAX
}

/// Whether the sequence value encodes a relative lock time.
pub open spec fn is_relative_spec(sequence: u32) -> bool {
    sequence & SEQUENCE_DISABLE_FLAG == 0
}

/// The relative lock time of a sequence value with its unit flag.
pub open spec fn relative_part(sequence: u32) -> u32 {
    sequence & (SEQUENCE_VALUE_MASK | SEQUENCE_TYPE_FLAG)
}

/// Whether an input with sequence `sequence` meets the relative lock `required`:
/// both must be in the same unit and the required amount must not exceed the
/// configured one.
pub open spec fn older_satisfied(sequence: u32, required: u32) -> bool {
    &&& is_relative_spec(sequence)
    &&& !(relative_part(required) < SEQUENCE_TYPE_FLAG && relative_part(sequence) >= SEQUENCE_TYPE_FLAG)
    &&& relative_part(required) <= relative_part(sequence)
}

/// Whether a transaction with block-height lock time `locktime`, spent by an input
/// with sequence `sequence`, meets the absolute lock `required`.
pub open spec fn after_satisfied(locktime: u32, sequence: u32, required: u32) -> bool {
    &&& enables_absolute_spec(sequence)
    &&& locktime < LOCK_TIME_THRESHOLD
    &&& required < LOCK_TIME_THRESHOLD
    &&& required <= locktime
}

/// The sequence value of a relative lock time of `height` blocks.
pub fn sequence_from_height(height: u16) -> (r: u32)
    ensures
        r == height as u32,
        is_relative_spec(r),
        enables_absolute_spec(r),
{
    let r = height as u32;
    assert(r & SEQUENCE_DISABLE_FLAG == 0) by (bit_vector)
        requires
            r <= 0xFFFF,
    ;
    r
}

/// Whether an input with this sequence lets the transaction's absolute lock time apply.
pub fn enables_absolute_lock_time(sequence: u32) -> (r: bool)
    ensures
        r == enables_absolute_spec(sequence),
{
    sequence != SEQUENCE_MAX
}

/// Checks a relative lock required by a policy against an input's sequence.
pub fn check_older(sequence: u32, required: u32) -> (r: bool)
    ensures
        r == older_satisfied(sequence, required),
{
    if sequence & SEQUENCE_DISABLE_FLAG != 0 {
        return false;
    }
    let mask: u32 = SEQUENCE_VALUE_MASK | SEQUENCE_TYPE_FLAG;
    let masked_required: u32 = required & mask;
    let masked_sequence: u32 = sequence & mask;
    if masked_required < SEQUENCE_TYPE_FLAG && masked_sequence >= SEQUENCE_TYPE_FLAG {
        false
    } else {
        masked_required <= masked_sequence
    }
}

/// Checks an absolute lock required by a policy against the transaction's lock
/// time and the spending input's sequence.
pub fn check_after(locktime: u32, sequence: u32, required: u32) -> (r: bool)
    ensures
        r == after_satisfied(locktime, sequence, required),
{
    sequence != SEQUENCE_MAX && locktime < LOCK_TIME_THRESHOLD && required < LOCK_TIME_THRESHOLD
        && required <= locktime
}

} // verus!
