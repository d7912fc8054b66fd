use vstd::prelude::*;

use bytes::Bytes;

use crate::buffer::{bytes_len, bytes_split_to, bytes_view, concat_chunks};

verus! {

/// The interval between the pieces of a chunk that is sent slowly, in milliseconds
pub const INTERVAL: u64 = 100;

/// The size of the pieces of a chunk that is sent slowly, in bytes
pub const UNIT: usize = 100;

/// The time, in nanoseconds, that sending `len` bytes at `rate` KB/s takes
pub open spec fn sleep_nanos(len: int, rate: int) -> int {
    len * 1_000_000 / rate
}

/// The number of pieces of `UNIT` bytes that are cut off a chunk of `len` bytes
/// before it fits the `rate * UNIT` bytes that may go at once
pub open spec fn piece_count(len: int, rate: int) -> int {
    if len > rate * 100 {
        (len - rate * 100 + 99) / 100
    } else {
        0
    }
}

/// Sending a chunk of `len` bytes at `rate` KB/s raises no arithmetic fault: the
/// rate is positive, and its byte budget and the sending time fit their integer types
pub open spec fn plan_fits(len: int, rate: int) -> bool {
    &&& rate > 0
    &&& rate * 100 <= usize::MAX
    &&& sleep_nanos(len, rate) <= u64::MAX
}

/// The time, in nanoseconds, left of sending `len` bytes at `rate` KB/s once
/// `pieces` intervals have passed, and zero when the intervals took longer
pub open spec fn time_left(len: int, rate: int, pieces: int) -> int {
    let left = sleep_nanos(len, rate) - pieces * 100_000_000;
    if left > 0 {
        left
    } else {
        0
    }
}

/// How the bandwidth toxic sends one chunk: each piece after an interval of
/// `INTERVAL` milliseconds, then, after a sleep of `final_sleep_nanos` when there
/// is one, the rest of the chunk when any is left.
#[derive(Debug)]
pub struct BandwidthPlan {
    /// The pieces of `UNIT` bytes sent one per interval
    pub pieces: Vec<Bytes>,
    /// The sleep before the rest of the chunk goes, in nanoseconds
    pub final_sleep_nanos: Option<u64>,
    /// What is left of the chunk after the pieces
    pub rest: Option<Bytes>,
}

/// `plan` sends the bytes `data` at `rate` KB/s: one piece of `UNIT` bytes per
/// interval while more than `rate * UNIT` bytes are left, then, after the time
/// of sending `data` less the intervals already spent (when that is at least a
/// millisecond), the rest. All the bytes go, in order.
pub open spec fn is_bandwidth_plan(plan: BandwidthPlan, data: Seq<u8>, rate: int) -> bool {
    &&& plan.pieces@.len() == piece_count(data.len() as int, rate)
    &&& forall|i: int|
        0 <= i < plan.pieces@.len() ==> bytes_view(#[trigger] plan.pieces@[i]) == data.subrange(
            100 * i,
            100 * i + 100,
        )
    &&& ({
        let left = time_left(data.len() as int, rate, plan.pieces@.len() as int);
        plan.final_sleep_nanos == if left >= 1_000_000 {
            Some(left as u64)
        } else {
            None
        }
    })
    &&& match plan.rest {
        Some(rest) => bytes_view(rest) == data.skip(100 * plan.pieces@.len() as int) && bytes_view(
            rest,
        ).len() > 0,
        None => data.len() == 100 * plan.pieces@.len(),
    }
    &&& concat_chunks(plan.pieces@) + match plan.rest {
        Some(rest) => bytes_view(rest),
        None => Seq::empty(),
    } == data
}

/// Whether a chunk of `len` bytes can be sent at `rate` KB/s without an
/// arithmetic fault
pub fn bandwidth_plan_fits(len: usize, rate: u64) -> (r: bool)
    ensures
        r == plan_fits(len as int, rate as int),
{
    if rate == 0 {
        return false;
    }
    if rate > (usize::MAX / 100) as u64 {
        return false;
    }
    let total: u128 = (len as u128 * 1_000_000u128) / (rate as u128);
    total <= u64::MAX as u128
}

/// Plan how the bandwidth toxic with a rate of `rate` KB/s sends a chunk: while
/// more than `rate * UNIT` bytes are left, a piece of `UNIT` bytes goes after each
/// interval, and the time of the interval is taken off the time that sending the
/// whole chunk takes, down to zero; what is left of that time is slept (when it is at least a
/// millisecond) before the rest of the chunk goes. All the bytes of the chunk go,
/// in order.
pub fn plan_bandwidth(chunk: Bytes, rate: u64) -> (r: BandwidthPlan)
    requires
        plan_fits(bytes_view(chunk).len() as int, rate as int),
    ensures
        is_bandwidth_plan(r, bytes_view(chunk), rate as int),
{
    let ghost orig = bytes_view(chunk);
    let total: u64 = ((bytes_len(&chunk) as u128 * 1_000_000u128) / (rate as u128)) as u64;
    let cap: usize = (rate as usize) * UNIT;
    let mut to_sleep: u64 = total;
    let mut chunk = chunk;
    let mut pieces: Vec<Bytes> = Vec::new();
    while bytes_len(&chunk) > cap
        invariant
            cap == rate * 100,
            rate > 0,
            total == sleep_nanos(orig.len() as int, rate as int),
            100 * pieces@.len() <= orig.len(),
            bytes_view(chunk) == orig.skip(100 * pieces@.len() as int),
            to_sleep == time_left(orig.len() as int, rate as int, pieces@.len() as int),
            pieces@.len() + piece_count(bytes_view(chunk).len() as int, rate as int) == piece_count(
                orig.len() as int,
                rate as int,
            ),
            forall|i: int|
                0 <= i < pieces@.len() ==> bytes_view(#[trigger] pieces@[i]) == orig.subrange(
                    100 * i,
                    100 * i + 100,
                ),
            concat_chunks(pieces@) == orig.take(100 * pieces@.len() as int),
        decreases bytes_view(chunk).len(),
    {
        let ghost before = pieces@;
        let piece = bytes_split_to(&mut chunk, UNIT);
        pieces.push(piece);
        assert(pieces@.drop_last() == before);
        assert(orig.take(100 * pieces@.len() as int) == orig.take(100 * before.len() as int) + orig.subrange(
            100 * before.len() as int,
            100 * before.len() as int + 100,
        ));
        to_sleep = if to_sleep >= 100_000_000 {
            to_sleep - 100_000_000
        } else {
            0
        };
    }
    let final_sleep_nanos = if to_sleep >= 1_000_000 {
        Some(to_sleep)
    } else {
        None
    };
    let rest = if bytes_len(&chunk) > 0 {
        Some(chunk)
    } else {
        None
    };
    proof {
        assert(orig == orig.take(100 * pieces@.len() as int) + orig.skip(100 * pieces@.len() as int));
        if rest is None {
            assert(orig.take(100 * pieces@.len() as int) + Seq::<u8>::empty() == orig.take(
                100 * pieces@.len() as int,
            ));
        }
    }
    BandwidthPlan { pieces, final_sleep_nanos, rest }
}

/// Plan how a chunk is sent at `rate` KB/s when that raises no arithmetic fault;
/// otherwise the chunk is handed back unchanged
pub fn try_plan_bandwidth(chunk: Bytes, rate: u64) -> (r: Result<BandwidthPlan, Bytes>)
    ensures
        match r {
            Ok(plan) => plan_fits(bytes_view(chunk).len() as int, rate as int) && is_bandwidth_plan(
                plan,
                bytes_view(chunk),
                rate as int,
            ),
            Err(c) => !plan_fits(bytes_view(chunk).len() as int, rate as int) && c == chunk,
        },
{
    if bandwidth_plan_fits(bytes_len(&chunk), rate) {
        Ok(plan_bandwidth(chunk, rate))
    } else {
        Err(chunk)
    }
}

} // verus!
