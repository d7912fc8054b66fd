use bytes::Bytes;
use noxious::proxy::Toxics;
use noxious::state::{choose_state_holder, HolderChoice, ToxicState, ToxicStateHolder};
use noxious::toxic::{StreamDirection, Toxic, ToxicKind};
use noxious::toxics::bandwidth::{bandwidth_plan_fits, plan_bandwidth, try_plan_bandwidth};
use noxious::toxics::latency::LatencyDelays;
use noxious::toxics::limit_data::{
    get_bytes_transmitted, limit_data_pass, limit_data_remaining, write_bytes_transmitted,
};
use noxious::toxics::slicer::SliceIter;

fn data(len: usize) -> Vec<u8> {
    (0..len).map(|i| (i * 7 % 251) as u8).collect()
}

fn all_slices(mut iter: SliceIter) -> Vec<Bytes> {
    let mut out = Vec::new();
    while let Some(slice) = iter.next() {
        out.push(slice);
    }
    out
}

#[test]
fn slicer_chops_constant_sizes() {
    let iter = SliceIter::new(Bytes::from("chop chop"), 4, 0, None).unwrap();
    let slices = all_slices(iter);
    assert_eq!(
        slices,
        vec![Bytes::from("chop"), Bytes::from(" cho"), Bytes::from("p")]
    );
}

#[test]
fn slicer_passthrough_once() {
    let input = data(32);
    let slices = all_slices(SliceIter::new(Bytes::from(input.clone()), 50, 0, None).unwrap());
    assert_eq!(slices, vec![Bytes::from(input)]);
}

#[test]
fn slicer_variation_keeps_all_bytes() {
    for seed in [Some(42u64), None] {
        let input = data(1000);
        let slices = all_slices(SliceIter::new(Bytes::from(input.clone()), 50, 8, seed).unwrap());
        let joined: Vec<u8> = slices.iter().flat_map(|s| s.iter().copied()).collect();
        assert_eq!(joined, input);
        for s in &slices[..slices.len() - 1] {
            assert!(s.len() >= 44 && s.len() <= 58, "slice of {} bytes", s.len());
            assert_eq!(s.len() % 2, 0);
        }
    }
}

#[test]
fn slicer_on_empty_chunk_yields_nothing() {
    let slices = all_slices(SliceIter::new(Bytes::new(), 4, 0, None).unwrap());
    assert!(slices.is_empty());
}

#[test]
fn limit_data_counts() {
    let mut state = ToxicState::for_toxic_kind(&ToxicKind::LimitData { bytes: 99999 }).unwrap();
    assert_eq!(ToxicState::LimitData { bytes_transmitted: 0 }, state);
    assert_eq!(0, get_bytes_transmitted(&state));
    write_bytes_transmitted(&mut state, 42);
    assert_eq!(42, get_bytes_transmitted(&state));
    assert_eq!(None, ToxicState::for_toxic_kind(&ToxicKind::Noop));
}

#[test]
fn limit_0() {
    assert_eq!(None, limit_data_remaining(0, 0));
}

#[test]
fn send_below_limit() {
    let input = data(500);
    let rem = limit_data_remaining(10000, 0).unwrap();
    assert_eq!(10000, rem);
    let (out, transmitted) = limit_data_pass(Bytes::from(input.clone()), 0, rem);
    assert_eq!(Bytes::from(input), out);
    assert_eq!(500, transmitted);
    assert_eq!(Some(9500), limit_data_remaining(10000, transmitted));
}

#[test]
fn send_above_limit() {
    let input = data(500);
    let rem = limit_data_remaining(42, 0).unwrap();
    let (out, transmitted) = limit_data_pass(Bytes::from(input.clone()), 0, rem);
    assert_eq!(&input[..42], &out[..]);
    assert_eq!(42, transmitted);
    assert_eq!(None, limit_data_remaining(42, transmitted));
}

#[test]
fn send_state_above_limit() {
    let state = ToxicState::for_toxic_kind(&ToxicKind::LimitData { bytes: 99999 }).unwrap();
    let before = get_bytes_transmitted(&state);
    let rem = limit_data_remaining(42, before).unwrap();
    let (out, transmitted) = limit_data_pass(Bytes::from(data(500)), before, rem);
    assert_eq!(42, out.len());
    assert_eq!(42, transmitted);
}

#[test]
fn limit_data_continues_from_state() {
    let rem = limit_data_remaining(100, 90).unwrap();
    assert_eq!(10, rem);
    let (out, transmitted) = limit_data_pass(Bytes::from(data(32)), 90, rem);
    assert_eq!(10, out.len());
    assert_eq!(100, transmitted);
}

#[test]
fn bandwidth_small_chunk_goes_whole() {
    // 32 bytes at 128 KB/s: 0.25 ms, too short to sleep
    assert!(bandwidth_plan_fits(32, 128));
    let plan = plan_bandwidth(Bytes::from(data(32)), 128);
    assert!(plan.pieces.is_empty());
    assert_eq!(None, plan.final_sleep_nanos);
    assert_eq!(Some(Bytes::from(data(32))), plan.rest);
}

#[test]
fn bandwidth_splits_large_chunk() {
    // 1000 bytes at 1 KB/s: 1 s in all, pieces while more than 100 bytes are left
    assert!(bandwidth_plan_fits(1000, 1));
    let plan = plan_bandwidth(Bytes::from(data(1000)), 1);
    assert_eq!(9, plan.pieces.len());
    assert!(plan.pieces.iter().all(|p| p.len() == 100));
    assert_eq!(Some(100_000_000), plan.final_sleep_nanos);
    assert_eq!(100, plan.rest.as_ref().unwrap().len());
    let mut joined: Vec<u8> = plan.pieces.iter().flat_map(|p| p.iter().copied()).collect();
    joined.extend_from_slice(plan.rest.as_ref().unwrap());
    assert_eq!(joined, data(1000));
}

#[test]
fn bandwidth_exact_pieces_leave_no_rest() {
    assert!(bandwidth_plan_fits(300, 1));
    let plan = plan_bandwidth(Bytes::from(data(300)), 1);
    assert_eq!(2, plan.pieces.len());
    assert_eq!(Some(100_000_000), plan.final_sleep_nanos);
    assert_eq!(Some(Bytes::from(data(300)[200..].to_vec())), plan.rest);
}

#[test]
fn bandwidth_refuses_zero_rate() {
    // a zero rate is no rate
    assert!(!bandwidth_plan_fits(10, 0));
    assert!(bandwidth_plan_fits(10, 1));
}

#[test]
fn bandwidth_intervals_longer_than_the_chunk_time_leave_no_sleep() {
    // 1000 bytes at 2 KB/s take 500 ms, but eight pieces take 800 ms of intervals
    assert!(bandwidth_plan_fits(1000, 2));
    let plan = plan_bandwidth(Bytes::from(data(1000)), 2);
    assert_eq!(8, plan.pieces.len());
    assert_eq!(None, plan.final_sleep_nanos);
    assert_eq!(Some(Bytes::from(data(1000)[800..].to_vec())), plan.rest);
    // 32 KiB at 128 KB/s: 200 pieces while more than 12800 bytes are left
    let plan = plan_bandwidth(Bytes::from(data(32768)), 128);
    assert_eq!(200, plan.pieces.len());
    assert_eq!(None, plan.final_sleep_nanos);
    let mut joined: Vec<u8> = plan.pieces.iter().flat_map(|p| p.iter().copied()).collect();
    joined.extend_from_slice(plan.rest.as_ref().unwrap());
    assert_eq!(joined, data(32768));
}

#[test]
fn latency_without_jitter_is_constant() {
    let mut delays = LatencyDelays::new(10, 0, None).unwrap();
    for _ in 0..5 {
        assert_eq!(10, delays.next_delay());
    }
}

#[test]
fn latency_with_jitter_stays_in_range() {
    for seed in [Some(1u64), Some(42), None] {
        let mut delays = LatencyDelays::new(1000, 5, seed).unwrap();
        for _ in 0..100 {
            let d = delays.next_delay();
            assert!(d >= 995 && d < 1005, "delay {}", d);
        }
    }
}

#[test]
fn seeded_latency_is_repeatable() {
    let mut a = LatencyDelays::new(100, 50, Some(7)).unwrap();
    let mut b = LatencyDelays::new(100, 50, Some(7)).unwrap();
    for _ in 0..20 {
        assert_eq!(a.next_delay(), b.next_delay());
    }
}

fn toxic(name: &str, kind: ToxicKind, direction: StreamDirection) -> Toxic {
    Toxic { kind, name: name.to_owned(), toxicity_bits: 1.0f32.to_bits(), direction }
}

#[test]
fn state_holder_for_stateful_toxics() {
    let none = Toxics {
        upstream: vec![toxic("n", ToxicKind::Noop, StreamDirection::Upstream)],
        downstream: vec![],
    };
    assert!(ToxicStateHolder::for_toxics(&none).is_none());

    let some = Toxics {
        upstream: vec![toxic("n", ToxicKind::Noop, StreamDirection::Upstream)],
        downstream: vec![toxic("lim", ToxicKind::LimitData { bytes: 5 }, StreamDirection::Downstream)],
    };
    let holder = ToxicStateHolder::for_toxics(&some).unwrap();
    assert_eq!(
        Some(ToxicState::LimitData { bytes_transmitted: 0 }),
        holder.get_state_for_toxic("lim")
    );
    assert_eq!(None, holder.get_state_for_toxic("n"));
    assert_eq!(1, holder.entries().len());
}

#[test]
fn bandwidth_try_plan_hands_back_faulty_chunks() {
    match try_plan_bandwidth(Bytes::from(data(10)), 0) {
        Err(chunk) => assert_eq!(Bytes::from(data(10)), chunk),
        Ok(_) => panic!("a zero rate cannot be planned"),
    }
    match try_plan_bandwidth(Bytes::from(data(250)), 1) {
        Ok(plan) => {
            // 250 ms in all; two pieces of 100 bytes take 200 ms of intervals
            assert_eq!(2, plan.pieces.len());
            assert_eq!(Some(50_000_000), plan.final_sleep_nanos);
            assert_eq!(Some(Bytes::from(data(250)[200..].to_vec())), plan.rest);
        }
        Err(_) => panic!("250 bytes at 1 KB/s can be planned"),
    }
}

#[test]
fn latency_with_jitter_above_latency_stops_at_zero() {
    assert!(LatencyDelays::delays_fit_check(1, 5));
    assert!(!LatencyDelays::delays_fit_check(u64::MAX, 1));
    for seed in [Some(3u64), Some(11), None] {
        let mut delays = LatencyDelays::new(1, 5, seed).unwrap();
        let mut saw_zero = false;
        for _ in 0..200 {
            let d = delays.next_delay();
            assert!(d < 6, "delay {}", d);
            saw_zero |= d == 0;
        }
        assert!(saw_zero);
    }
}

#[test]
fn state_holder_choice() {
    let stateful = Toxics {
        upstream: vec![toxic("limit", ToxicKind::LimitData { bytes: 5 }, StreamDirection::Upstream)],
        downstream: vec![toxic("more", ToxicKind::LimitData { bytes: 9 }, StreamDirection::Downstream)],
    };
    // earlier links held states for both: they are kept as they are
    let held = vec!["limit".to_owned(), "more".to_owned()];
    match choose_state_holder(Some(7u32), &held, &stateful) {
        HolderChoice::Keep(h) => assert_eq!(7, h),
        _ => panic!("earlier states are kept"),
    }
    // a LimitData toxic added after the client connected gets a fresh state
    let held = vec!["limit".to_owned()];
    match choose_state_holder(Some(7u32), &held, &stateful) {
        HolderChoice::Extend(h, added) => {
            assert_eq!(7, h);
            assert_eq!(1, added.entries().len());
            assert_eq!("more", added.entries()[0].0);
            assert_eq!(None, added.get_state_for_toxic("limit"));
            assert_eq!(Some(ToxicState::LimitData { bytes_transmitted: 0 }), added.get_state_for_toxic("more"));
        }
        _ => panic!("the missing state is added"),
    }
    match choose_state_holder(None::<u32>, &Vec::new(), &stateful) {
        HolderChoice::Fresh(holder) => {
            assert_eq!(Some(ToxicState::LimitData { bytes_transmitted: 0 }), holder.get_state_for_toxic("limit"));
            assert_eq!(2, holder.entries().len());
        }
        _ => panic!("a stateful toxic gets a fresh state"),
    }
    let stateless = Toxics {
        upstream: vec![toxic("lat", ToxicKind::Latency { latency: 1, jitter: 0 }, StreamDirection::Upstream)],
        downstream: vec![],
    };
    assert!(matches!(choose_state_holder(None::<u32>, &Vec::new(), &stateless), HolderChoice::NoState));
    assert!(matches!(choose_state_holder(Some(1u32), &Vec::new(), &stateless), HolderChoice::Keep(1)));
}

#[test]
fn seeded_slices_are_repeatable() {
    let input = data(500);
    let a = all_slices(SliceIter::new(Bytes::from(input.clone()), 20, 10, Some(5)).unwrap());
    let b = all_slices(SliceIter::new(Bytes::from(input.clone()), 20, 10, Some(5)).unwrap());
    assert_eq!(a, b);
    assert!(a.iter().any(|s| s.len() != 20));
    let joined: Vec<u8> = a.iter().flat_map(|s| s.iter().copied()).collect();
    assert_eq!(joined, input);
}
