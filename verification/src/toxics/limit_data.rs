use vstd::prelude::*;

use bytes::Bytes;

use crate::buffer::{bytes_len, bytes_truncate, bytes_view};
use crate::state::ToxicState;

verus! {

/// The count of bytes that a LimitData state records
pub fn get_bytes_transmitted(state: &ToxicState) -> (r: usize)
    ensures
        *state == (ToxicState::LimitData { bytes_transmitted: r }),
{
    match state {
        ToxicState::LimitData { bytes_transmitted } => *bytes_transmitted,
    }
}

/// Record a new count of bytes in a LimitData state
pub fn write_bytes_transmitted(state: &mut ToxicState, value: usize)
    ensures
        *final(state) == (ToxicState::LimitData { bytes_transmitted: value }),
{
    match state {
        ToxicState::LimitData { bytes_transmitted } => {
            *bytes_transmitted = value;
        },
    }
}

/// How many more bytes the LimitData toxic with this limit lets through after
/// `transmitted` bytes: `None` once the limit is reached, when the toxic stops
/// reading and closes.
pub fn limit_data_remaining(limit: u64, transmitted: usize) -> (r: Option<usize>)
    requires
        limit <= usize::MAX,
    ensures
        match r {
            Some(rem) => transmitted < limit && rem == limit - transmitted && rem > 0,
            None => transmitted >= limit,
        },
{
    let limit = limit as usize;
    if transmitted < limit {
        Some(limit - transmitted)
    } else {
        None
    }
}

/// The part of a chunk that the LimitData toxic lets through when `remaining`
/// more bytes may pass after `transmitted` ones, and the count of bytes
/// transmitted once that part is sent. The part is the start of the chunk, and
/// the count never exceeds the limit.
pub fn limit_data_pass(chunk: Bytes, transmitted: usize, remaining: usize) -> (r: (Bytes, usize))
    requires
        transmitted + remaining <= usize::MAX,
    ensures
        bytes_view(r.0) == if bytes_view(chunk).len() > remaining {
            bytes_view(chunk).take(remaining as int)
        } else {
            bytes_view(chunk)
        },
        r.1 == transmitted + bytes_view(r.0).len(),
        r.1 <= transmitted + remaining,
{
    let mut chunk = chunk;
    bytes_truncate(&mut chunk, remaining);
    let to_send = bytes_len(&chunk);
    (chunk, transmitted + to_send)
}

} // verus!
