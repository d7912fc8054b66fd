use vstd::prelude::*;

use crate::proxy::Toxics;
use crate::toxic::{Toxic, ToxicKind};

verus! {

/// The state that a stateful toxic keeps over the whole life of a client
/// connection, across the links that are re-created for it
#[derive(Debug, Clone, Copy, PartialEq, Eq, Structural)]
pub enum ToxicState {
    /// How many bytes the LimitData toxic has let through so far
    LimitData { bytes_transmitted: usize },
}

impl ToxicState {
    /// The initial state for a toxic of this kind, for the kinds that keep one
    pub fn for_toxic_kind(kind: &ToxicKind) -> (r: Option<ToxicState>)
        ensures
            r == (if *kind is LimitData {
                Some(ToxicState::LimitData { bytes_transmitted: 0 })
            } else {
                None
            }),
    {
        match kind {
            ToxicKind::LimitData { .. } => Some(ToxicState::LimitData { bytes_transmitted: 0 }),
            _ => None,
        }
    }
}

/// The names of the stateful toxics of `s`, in order
pub open spec fn stateful_names(s: Seq<Toxic>) -> Seq<Seq<char>>
    decreases s.len(),
{
    if s.len() == 0 {
        Seq::empty()
    } else if s.last().kind.is_stateful_spec() {
        stateful_names(s.drop_last()).push(s.last().name@)
    } else {
        stateful_names(s.drop_last())
    }
}

/// The names of the stateful toxics of `s` that `held` does not hold, in order
pub open spec fn stateful_names_except(s: Seq<Toxic>, held: Seq<Seq<char>>) -> Seq<Seq<char>>
    decreases s.len(),
{
    if s.len() == 0 {
        Seq::empty()
    } else if s.last().kind.is_stateful_spec() && !held.contains(s.last().name@) {
        stateful_names_except(s.drop_last(), held).push(s.last().name@)
    } else {
        stateful_names_except(s.drop_last(), held)
    }
}

proof fn lemma_stateful_names_none_held(s: Seq<Toxic>)
    ensures
        stateful_names(s) == stateful_names_except(s, Seq::empty()),
    decreases s.len(),
{
    if s.len() > 0 {
        lemma_stateful_names_none_held(s.drop_last());
    }
}

/// Every stateful toxic of `s` has its name held or among the names of the
/// stateful toxics that `held` does not hold, and none of those is held
pub proof fn lemma_stateful_covered(s: Seq<Toxic>, held: Seq<Seq<char>>)
    ensures
        forall|i: int|
            0 <= i < s.len() && (#[trigger] s[i]).kind.is_stateful_spec() ==> held.contains(
                s[i].name@,
            ) || stateful_names_except(s, held).contains(s[i].name@),
        forall|j: int|
            0 <= j < stateful_names_except(s, held).len() ==> !held.contains(
                #[trigger] stateful_names_except(s, held)[j],
            ),
    decreases s.len(),
{
    if s.len() > 0 {
        let p = s.drop_last();
        lemma_stateful_covered(p, held);
        let ep = stateful_names_except(p, held);
        let e = stateful_names_except(s, held);
        assert forall|i: int|
            0 <= i < s.len() && (#[trigger] s[i]).kind.is_stateful_spec() implies held.contains(
                s[i].name@,
            ) || e.contains(s[i].name@) by {
            if i < s.len() - 1 {
                assert(s[i] == p[i]);
                if ep.contains(s[i].name@) {
                    let k = choose|k: int| 0 <= k < ep.len() && ep[k] == s[i].name@;
                    assert(e[k] == ep[k]);
                }
            } else if !held.contains(s[i].name@) {
                assert(e[e.len() - 1] == s[i].name@);
            }
        }
        assert forall|j: int| 0 <= j < e.len() implies !held.contains(#[trigger] e[j]) by {
            if j < ep.len() {
                assert(e[j] == ep[j]);
            }
        }
    }
}

impl ToxicKind {
    /// Whether a toxic of this kind keeps a state
    pub open spec fn is_stateful_spec(&self) -> bool {
        *self is LimitData
    }
}

/// Whether `held` holds the name `name`
fn holds_name(held: &Vec<String>, name: &String) -> (r: bool)
    ensures
        r == held@.map_values(|h: String| h@).contains(name@),
{
    let ghost hv = held@.map_values(|h: String| h@);
    let mut i: usize = 0;
    while i < held.len()
        invariant
            0 <= i <= held.len(),
            hv == held@.map_values(|h: String| h@),
            forall|k: int| 0 <= k < i ==> hv[k] != name@,
        decreases held.len() - i,
    {
        if held[i] == *name {
            assert(hv[i as int] == name@);
            return true;
        }
        i += 1;
    }
    assert(!hv.contains(name@)) by {
        if hv.contains(name@) {
            let k = choose|k: int| 0 <= k < hv.len() && hv[k] == name@;
            assert(hv[k] == name@);
        }
    }
    false
}

/// The initial states of the stateful toxics of a client connection, by toxic name
#[derive(Debug)]
pub struct ToxicStateHolder {
    entries: Vec<(String, ToxicState)>,
}

impl ToxicStateHolder {
    /// The toxic names that hold a state, in the order of the toxics
    pub closed spec fn names(&self) -> Seq<Seq<char>> {
        self.entries@.map_values(|e: (String, ToxicState)| e.0@)
    }

    /// Every state held is the initial state of a LimitData toxic
    pub closed spec fn all_initial(&self) -> bool {
        forall|i: int|
            0 <= i < self.entries@.len() ==> #[trigger] self.entries@[i].1
                == (ToxicState::LimitData { bytes_transmitted: 0 })
    }

    /// The holder for these toxics: `None` when none of them is stateful; else
    /// an initial state for each stateful toxic, upstream ones first.
    pub fn for_toxics(toxics: &Toxics) -> (r: Option<ToxicStateHolder>)
        ensures
            match r {
                None => stateful_names(toxics.upstream@ + toxics.downstream@).len() == 0,
                Some(h) => {
                    &&& h.names() == stateful_names(toxics.upstream@ + toxics.downstream@)
                    &&& h.names().len() > 0
                    &&& h.all_initial()
                },
            },
    {
        let none_held: Vec<String> = Vec::new();
        proof {
            assert(none_held@.map_values(|h: String| h@) =~= Seq::<Seq<char>>::empty());
            lemma_stateful_names_none_held(toxics.upstream@ + toxics.downstream@);
        }
        Self::for_toxics_except(toxics, &none_held)
    }

    /// The holder for the stateful toxics among these whose names `held` does
    /// not hold: `None` when there are none; else an initial state for each,
    /// upstream ones first.
    fn for_toxics_except(toxics: &Toxics, held: &Vec<String>) -> (r: Option<ToxicStateHolder>)
        ensures
            match r {
                None => stateful_names_except(
                    toxics.upstream@ + toxics.downstream@,
                    held@.map_values(|h: String| h@),
                ).len() == 0,
                Some(h) => {
                    &&& h.names() == stateful_names_except(
                        toxics.upstream@ + toxics.downstream@,
                        held@.map_values(|h: String| h@),
                    )
                    &&& h.names().len() > 0
                    &&& h.all_initial()
                },
            },
    {
        let ghost all = toxics.upstream@ + toxics.downstream@;
        let ghost hv = held@.map_values(|h: String| h@);
        let mut entries: Vec<(String, ToxicState)> = Vec::new();
        let mut i: usize = 0;
        while i < toxics.upstream.len()
            invariant
                0 <= i <= toxics.upstream.len(),
                all == toxics.upstream@ + toxics.downstream@,
                hv == held@.map_values(|h: String| h@),
                entries@.map_values(|e: (String, ToxicState)| e.0@) == stateful_names_except(
                    all.take(i as int),
                    hv,
                ),
                forall|k: int|
                    0 <= k < entries@.len() ==> #[trigger] entries@[k].1
                        == (ToxicState::LimitData { bytes_transmitted: 0 }),
            decreases toxics.upstream.len() - i,
        {
            let toxic = &toxics.upstream[i];
            assert(all.take(i + 1).drop_last() == all.take(i as int));
            assert(all.take(i + 1).last() == toxics.upstream@[i as int]);
            if let Some(state) = ToxicState::for_toxic_kind(&toxic.kind) {
                if !holds_name(held, &toxic.name) {
                    entries.push((toxic.name.clone(), state));
                }
            }
            assert(entries@.map_values(|e: (String, ToxicState)| e.0@) == stateful_names_except(
                all.take(i + 1),
                hv,
            ));
            i += 1;
        }
        let mut j: usize = 0;
        let ulen = toxics.upstream.len();
        while j < toxics.downstream.len()
            invariant
                0 <= j <= toxics.downstream.len(),
                ulen == toxics.upstream@.len(),
                all == toxics.upstream@ + toxics.downstream@,
                hv == held@.map_values(|h: String| h@),
                entries@.map_values(|e: (String, ToxicState)| e.0@) == stateful_names_except(
                    all.take(ulen + j),
                    hv,
                ),
                forall|k: int|
                    0 <= k < entries@.len() ==> #[trigger] entries@[k].1
                        == (ToxicState::LimitData { bytes_transmitted: 0 }),
            decreases toxics.downstream.len() - j,
        {
            let toxic = &toxics.downstream[j];
            assert(all.take(ulen + j + 1).drop_last() == all.take(ulen + j));
            assert(all.take(ulen + j + 1).last() == toxics.downstream@[j as int]);
            if let Some(state) = ToxicState::for_toxic_kind(&toxic.kind) {
                if !holds_name(held, &toxic.name) {
                    entries.push((toxic.name.clone(), state));
                }
            }
            assert(entries@.map_values(|e: (String, ToxicState)| e.0@) == stateful_names_except(
                all.take(ulen + j + 1),
                hv,
            ));
            j += 1;
        }
        assert(all.take(all.len() as int) == all);
        if entries.len() == 0 {
            None
        } else {
            Some(ToxicStateHolder { entries })
        }
    }

    /// The state held for the toxic of this name, if it holds one
    pub fn get_state_for_toxic(&self, toxic_name: &str) -> (r: Option<ToxicState>)
        requires
            self.all_initial(),
        ensures
            r == (if self.names().contains(toxic_name@) {
                Some(ToxicState::LimitData { bytes_transmitted: 0 })
            } else {
                None
            }),
    {
        let name = toxic_name.to_owned();
        let mut i: usize = 0;
        while i < self.entries.len()
            invariant
                0 <= i <= self.entries.len(),
                self.all_initial(),
                name@ == toxic_name@,
                forall|k: int| 0 <= k < i ==> self.entries@[k].0@ != name@,
            decreases self.entries.len() - i,
        {
            if self.entries[i].0 == name {
                assert(self.names().len() == self.entries@.len());
                assert(self.names()[i as int] == name@);
                assert(self.names().contains(toxic_name@));
                assert(self.entries@[i as int].1 == (ToxicState::LimitData { bytes_transmitted: 0 }));
                return Some(self.entries[i].1);
            }
            i += 1;
        }
        assert(!self.names().contains(name@)) by {
            if self.names().contains(name@) {
                let k = choose|k: int| 0 <= k < self.names().len() && self.names()[k] == name@;
                assert(self.entries@[k].0@ == name@);
            }
        }
        None
    }

    /// The names and states held, in order
    pub fn entries(&self) -> (r: &Vec<(String, ToxicState)>)
        ensures
            r@.map_values(|e: (String, ToxicState)| e.0@) == self.names(),
            self.all_initial() ==> forall|k: int|
                0 <= k < r@.len() ==> #[trigger] r@[k].1 == (ToxicState::LimitData {
                    bytes_transmitted: 0,
                }),
    {
        &self.entries
    }
}

/// Where the toxic states of the links of a client connection come from
#[derive(Debug)]
pub enum HolderChoice<H> {
    /// The states that the earlier links of the connection kept, which hold
    /// one for every stateful toxic
    Keep(H),
    /// The states that the earlier links kept, to which initial states for the
    /// stateful toxics they lack are added
    Extend(H, ToxicStateHolder),
    /// Initial states for the stateful toxics
    Fresh(ToxicStateHolder),
    /// No toxic keeps a state
    NoState,
}

/// The names of the states that new links use after the choice `r`, where the
/// earlier links held states for the names `held`
pub open spec fn chosen_names<H>(r: HolderChoice<H>, held: Seq<Seq<char>>) -> Seq<Seq<char>> {
    match r {
        HolderChoice::Keep(_) => held,
        HolderChoice::Extend(_, added) => held + added.names(),
        HolderChoice::Fresh(fresh) => fresh.names(),
        HolderChoice::NoState => Seq::empty(),
    }
}

/// The toxic states for new links of a client connection. When earlier links
/// of the connection kept states (`previous`, holding states for the names
/// `held`), those are kept, and initial states are added for the stateful
/// toxics among `toxics` that they lack; else initial states for the stateful
/// toxics, when there are any. Either way every stateful toxic has a state.
pub fn choose_state_holder<H>(previous: Option<H>, held: &Vec<String>, toxics: &Toxics) -> (r:
    HolderChoice<H>)
    ensures
        match previous {
            Some(h) => match r {
                HolderChoice::Keep(k) => k == h && stateful_names_except(
                    toxics.upstream@ + toxics.downstream@,
                    held@.map_values(|n: String| n@),
                ).len() == 0,
                HolderChoice::Extend(k, added) => {
                    &&& k == h
                    &&& added.names() == stateful_names_except(
                        toxics.upstream@ + toxics.downstream@,
                        held@.map_values(|n: String| n@),
                    )
                    &&& added.names().len() > 0
                    &&& added.all_initial()
                },
                _ => false,
            },
            None => match r {
                HolderChoice::Fresh(fresh) => {
                    &&& fresh.names() == stateful_names(toxics.upstream@ + toxics.downstream@)
                    &&& fresh.names().len() > 0
                    &&& fresh.all_initial()
                },
                HolderChoice::NoState => stateful_names(toxics.upstream@ + toxics.downstream@).len()
                    == 0,
                _ => false,
            },
        },
        forall|i: int|
            0 <= i < (toxics.upstream@ + toxics.downstream@).len() && (#[trigger] (toxics.upstream@
                + toxics.downstream@)[i]).kind is LimitData ==> chosen_names(
                r,
                held@.map_values(|n: String| n@),
            ).contains((toxics.upstream@ + toxics.downstream@)[i].name@),
        match r {
            HolderChoice::Extend(_, added) => forall|j: int|
                0 <= j < added.names().len() ==> !held@.map_values(|n: String| n@).contains(
                    #[trigger] added.names()[j],
                ),
            _ => true,
        },
{
    let ghost all = toxics.upstream@ + toxics.downstream@;
    let ghost hv = held@.map_values(|n: String| n@);
    proof {
        lemma_stateful_covered(all, hv);
        lemma_stateful_covered(all, Seq::empty());
        lemma_stateful_names_none_held(all);
    }
    match previous {
        Some(h) => match ToxicStateHolder::for_toxics_except(toxics, held) {
            Some(added) => {
                proof {
                    let names = added.names();
                    assert forall|i: int|
                        0 <= i < all.len() && (#[trigger] all[i]).kind is LimitData implies (hv
                            + names).contains(all[i].name@) by {
                        assert(all[i].kind.is_stateful_spec());
                        if hv.contains(all[i].name@) {
                            let k = choose|k: int| 0 <= k < hv.len() && hv[k] == all[i].name@;
                            assert((hv + names)[k] == hv[k]);
                        } else {
                            let k = choose|k: int| 0 <= k < names.len() && names[k] == all[i].name@;
                            assert((hv + names)[hv.len() + k] == names[k]);
                        }
                    }
                }
                HolderChoice::Extend(h, added)
            },
            None => {
                proof {
                    assert forall|i: int|
                        0 <= i < all.len() && (#[trigger] all[i]).kind is LimitData implies hv.contains(
                            all[i].name@,
                        ) by {
                        assert(all[i].kind.is_stateful_spec());
                    }
                }
                HolderChoice::Keep(h)
            },
        },
        None => match ToxicStateHolder::for_toxics(toxics) {
            Some(fresh) => {
                proof {
                    assert forall|i: int|
                        0 <= i < all.len() && (#[trigger] all[i]).kind is LimitData implies fresh.names().contains(
                            all[i].name@,
                        ) by {
                        assert(all[i].kind.is_stateful_spec());
                        assert(!Seq::<Seq<char>>::empty().contains(all[i].name@));
                    }
                }
                HolderChoice::Fresh(fresh)
            },
            None => {
                proof {
                    assert forall|i: int|
                        0 <= i < all.len() && (#[trigger] all[i]).kind is LimitData implies false by {
                        assert(all[i].kind.is_stateful_spec());
                        assert(!Seq::<Seq<char>>::empty().contains(all[i].name@));
                    }
                }
                HolderChoice::NoState
            },
        },
    }
}

} // verus!
