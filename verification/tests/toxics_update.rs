use noxious::error::{NotFoundError, ToxicUpdateError};
use noxious::proxy::{update_toxics, Toxics};
use noxious::toxic::{
    update_toxic_list_in_place, StreamDirection, Toxic, ToxicEvent, ToxicEventKind, ToxicKind,
};

fn toxic(name: &str, kind: ToxicKind, direction: StreamDirection, toxicity: f32) -> Toxic {
    Toxic { kind, name: name.to_owned(), toxicity_bits: toxicity.to_bits(), direction }
}

fn names(list: &[Toxic]) -> Vec<String> {
    list.iter().map(|t| t.name.clone()).collect()
}

fn event(kind: ToxicEventKind) -> ToxicEvent {
    ToxicEvent::new("proxy".to_owned(), kind)
}

fn sample() -> Toxics {
    Toxics {
        upstream: vec![
            toxic("lat", ToxicKind::Latency { latency: 10, jitter: 1 }, StreamDirection::Upstream, 1.0),
            toxic("bw", ToxicKind::Bandwidth { rate: 5 }, StreamDirection::Upstream, 0.5),
        ],
        downstream: vec![toxic("slow", ToxicKind::SlowClose { delay: 3 }, StreamDirection::Downstream, 1.0)],
    }
}

#[test]
fn kind_flags() {
    assert!(ToxicKind::SlowClose { delay: 1 }.has_close_logic());
    assert!(ToxicKind::LimitData { bytes: 1 }.has_close_logic());
    assert!(!ToxicKind::Noop.has_close_logic());
    assert!(ToxicKind::LimitData { bytes: 1 }.is_stateful());
    assert!(!ToxicKind::SlowClose { delay: 1 }.is_stateful());
    assert_eq!(1024, ToxicKind::Latency { latency: 1, jitter: 0 }.chunk_buffer_capacity());
    assert_eq!(1, ToxicKind::Timeout { timeout: 1 }.chunk_buffer_capacity());
}

#[test]
fn toxics_are_equal_by_name() {
    let a = toxic("same", ToxicKind::Noop, StreamDirection::Upstream, 1.0);
    let b = toxic("same", ToxicKind::Timeout { timeout: 5 }, StreamDirection::Downstream, 0.1);
    let c = toxic("other", ToxicKind::Noop, StreamDirection::Upstream, 1.0);
    assert_eq!(a, b);
    assert_ne!(a, c);
    let copy = a.clone();
    assert_eq!(copy.kind, a.kind);
    assert_eq!(copy.toxicity_bits, a.toxicity_bits);
}

#[test]
fn add_goes_to_its_direction() {
    let mut list = Vec::new();
    let t = toxic("x", ToxicKind::Noop, StreamDirection::Downstream, 1.0);
    let res = update_toxic_list_in_place(&mut list, ToxicEventKind::AddToxic(t), StreamDirection::Upstream);
    assert!(matches!(res, Err(ToxicEventKind::AddToxic(ref t)) if t.name == "x"));
    assert!(list.is_empty());
    let t = toxic("x", ToxicKind::Noop, StreamDirection::Downstream, 1.0);
    let res = update_toxic_list_in_place(&mut list, ToxicEventKind::AddToxic(t), StreamDirection::Downstream);
    assert!(res.is_ok());
    assert_eq!(names(&list), vec!["x"]);
}

#[test]
fn add_then_find() {
    let mut toxics = sample();
    let t = toxic("new", ToxicKind::LimitData { bytes: 7 }, StreamDirection::Downstream, 1.0);
    assert!(update_toxics(event(ToxicEventKind::AddToxic(t)), &mut toxics).is_ok());
    let found = toxics.find_by_name("new").unwrap();
    assert_eq!(found.kind, ToxicKind::LimitData { bytes: 7 });
    assert_eq!(found.direction, StreamDirection::Downstream);
    assert_eq!(names(&toxics.downstream), vec!["slow", "new"]);
}

#[test]
fn add_under_a_taken_name_is_refused() {
    let mut toxics = sample();
    // "slow" is taken downstream; adding it upstream is refused too
    let t = toxic("slow", ToxicKind::Noop, StreamDirection::Upstream, 1.0);
    assert_eq!(
        Err(ToxicUpdateError::AlreadyExists),
        update_toxics(event(ToxicEventKind::AddToxic(t)), &mut toxics)
    );
    let t = toxic("lat", ToxicKind::Noop, StreamDirection::Upstream, 1.0);
    assert_eq!(
        Err(ToxicUpdateError::AlreadyExists),
        update_toxics(event(ToxicEventKind::AddToxic(t)), &mut toxics)
    );
    assert_eq!(names(&toxics.upstream), vec!["lat", "bw"]);
    assert_eq!(names(&toxics.downstream), vec!["slow"]);
    assert_eq!(toxics.find_by_name("lat").unwrap().kind, ToxicKind::Latency { latency: 10, jitter: 1 });
}

#[test]
fn names_stay_unique_over_events() {
    let mut toxics = sample();
    let events = vec![
        ToxicEventKind::AddToxic(toxic("a", ToxicKind::Noop, StreamDirection::Upstream, 1.0)),
        ToxicEventKind::AddToxic(toxic("a", ToxicKind::Noop, StreamDirection::Downstream, 1.0)),
        ToxicEventKind::UpdateToxic(toxic("a", ToxicKind::Timeout { timeout: 3 }, StreamDirection::Upstream, 1.0)),
        ToxicEventKind::RemoveToxic("bw".to_owned()),
        ToxicEventKind::AddToxic(toxic("bw", ToxicKind::Noop, StreamDirection::Downstream, 1.0)),
        ToxicEventKind::AddToxic(toxic("bw", ToxicKind::Noop, StreamDirection::Upstream, 1.0)),
    ];
    for kind in events {
        let _ = update_toxics(event(kind), &mut toxics);
        let mut all = names(&toxics.upstream);
        all.extend(names(&toxics.downstream));
        let mut sorted = all.clone();
        sorted.sort();
        sorted.dedup();
        assert_eq!(all.len(), sorted.len());
    }
    assert_eq!(names(&toxics.upstream), vec!["lat", "a"]);
    assert_eq!(names(&toxics.downstream), vec!["slow", "bw"]);
}

#[test]
fn update_replaces_in_place() {
    let mut toxics = sample();
    let t = toxic("bw", ToxicKind::Bandwidth { rate: 99 }, StreamDirection::Upstream, 0.25);
    assert!(update_toxics(event(ToxicEventKind::UpdateToxic(t)), &mut toxics).is_ok());
    assert_eq!(names(&toxics.upstream), vec!["lat", "bw"]);
    let found = toxics.find_by_name("bw").unwrap();
    assert_eq!(found.kind, ToxicKind::Bandwidth { rate: 99 });
    assert_eq!(f32::from_bits(found.toxicity_bits), 0.25);
}

#[test]
fn update_in_other_direction_is_not_found() {
    let mut toxics = sample();
    let t = toxic("bw", ToxicKind::Bandwidth { rate: 99 }, StreamDirection::Downstream, 0.25);
    assert_eq!(
        Err(ToxicUpdateError::NotFound),
        update_toxics(event(ToxicEventKind::UpdateToxic(t)), &mut toxics)
    );
    assert_eq!(names(&toxics.upstream), vec!["lat", "bw"]);
    assert_eq!(names(&toxics.downstream), vec!["slow"]);
    assert_eq!(toxics.find_by_name("bw").unwrap().kind, ToxicKind::Bandwidth { rate: 5 });
}

#[test]
fn remove_then_absent() {
    let mut toxics = sample();
    assert!(update_toxics(event(ToxicEventKind::RemoveToxic("slow".to_owned())), &mut toxics).is_ok());
    assert!(toxics.find_by_name("slow").is_none());
    assert!(toxics.downstream.is_empty());
    assert!(update_toxics(event(ToxicEventKind::RemoveToxic("lat".to_owned())), &mut toxics).is_ok());
    assert_eq!(names(&toxics.upstream), vec!["bw"]);
}

#[test]
fn remove_unknown_is_not_found() {
    let mut toxics = sample();
    let res = update_toxics(event(ToxicEventKind::RemoveToxic("nope".to_owned())), &mut toxics);
    assert_eq!(Err(ToxicUpdateError::NotFound), res);
    assert_eq!(ToxicUpdateError::NotFound, ToxicUpdateError::from(NotFoundError));
    assert_eq!(3, toxics.into_vec().len());
}

#[test]
fn reset_removes_all_toxics() {
    let mut toxics = sample();
    assert!(update_toxics(event(ToxicEventKind::RemoveAllToxics), &mut toxics).is_ok());
    assert!(toxics.upstream.is_empty());
    assert!(toxics.downstream.is_empty());
}

#[test]
fn find_prefers_upstream() {
    let toxics = Toxics {
        upstream: vec![toxic("dup", ToxicKind::Noop, StreamDirection::Upstream, 1.0)],
        downstream: vec![toxic("dup", ToxicKind::Timeout { timeout: 1 }, StreamDirection::Downstream, 1.0)],
    };
    assert_eq!(toxics.find_by_name("dup").unwrap().kind, ToxicKind::Noop);
    assert!(toxics.find_by_name("missing").is_none());
}

#[test]
fn into_vec_and_empty() {
    let toxics = sample();
    assert_eq!(names(&toxics.clone().into_vec()), vec!["lat", "bw", "slow"]);
    let empty = Toxics::empty();
    assert!(empty.into_vec().is_empty());
}

#[test]
fn display_texts() {
    assert_eq!("downstream", StreamDirection::Downstream.to_string());
    assert_eq!("upstream", StreamDirection::Upstream.to_string());
    assert_eq!("Noop", ToxicKind::Noop.to_string());
    assert_eq!("Latency(4321)", ToxicKind::Latency { latency: 4321, jitter: 5 }.to_string());
    assert_eq!("Timeout(0)", ToxicKind::Timeout { timeout: 0 }.to_string());
    assert_eq!("Bandwidth(128)", ToxicKind::Bandwidth { rate: 128 }.to_string());
    assert_eq!("SlowClose(1000)", ToxicKind::SlowClose { delay: 1000 }.to_string());
    assert_eq!(
        "Slicer(50)",
        ToxicKind::Slicer { average_size: 50, size_variation: 8, delay: 0 }.to_string()
    );
    assert_eq!(
        "LimitData(18446744073709551615)",
        ToxicKind::LimitData { bytes: u64::MAX }.to_string()
    );
    let t = toxic("lat", ToxicKind::Latency { latency: 10, jitter: 1 }, StreamDirection::Upstream, 1.0);
    assert_eq!("lat: Latency(10)", t.to_string());
}
