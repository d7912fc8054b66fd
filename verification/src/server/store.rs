use vstd::prelude::*;

use crate::proxy::{validate_result, ProxyConfig, ProxyValidateError};
use crate::server::error::{ResourceKind, StoreError};

verus! {

/// A running proxy, by the name it was created under: the launch ID that tells
/// two launches under one name apart, and the handle of the running proxy
#[derive(Debug)]
pub struct ProxyEntry<H> {
    /// The proxy name
    pub name: String,
    /// The launch ID
    pub id: usize,
    /// The handle of the running proxy
    pub handle: H,
}

/// The proxies of the store, by name: at most one per name
#[derive(Debug)]
pub struct ProxyRegistry<H> {
    entries: Vec<ProxyEntry<H>>,
    next_id: usize,
    /// Whether the launch counter has gone past its largest value and restarted
    wrapped: bool,
}

/// Every launch ID held is below `next`
pub open spec fn ids_below<H>(s: Seq<ProxyEntry<H>>, next: usize) -> bool {
    forall|i: int| 0 <= i < s.len() ==> #[trigger] s[i].id < next
}

/// No two entries share a name
pub open spec fn unique_names<H>(s: Seq<ProxyEntry<H>>) -> bool {
    forall|i: int, j: int| 0 <= i < j < s.len() ==> s[i].name@ != s[j].name@
}

/// Some entry has the name `n`
pub open spec fn has_entry<H>(s: Seq<ProxyEntry<H>>, n: Seq<char>) -> bool {
    exists|i: int| 0 <= i < s.len() && #[trigger] s[i].name@ == n
}

/// The position of an entry named `n` (meaningful when there is one)
pub open spec fn entry_index<H>(s: Seq<ProxyEntry<H>>, n: Seq<char>) -> int {
    choose|i: int| 0 <= i < s.len() && #[trigger] s[i].name@ == n
}

/// The map from names to launch IDs and handles that the entries make
pub open spec fn entries_map<H>(s: Seq<ProxyEntry<H>>) -> Map<Seq<char>, (usize, H)> {
    Map::new(
        |n: Seq<char>| has_entry(s, n),
        |n: Seq<char>| (s[entry_index(s, n)].id, s[entry_index(s, n)].handle),
    )
}

proof fn lemma_entry_index<H>(s: Seq<ProxyEntry<H>>, n: Seq<char>, i: int)
    requires
        unique_names(s),
        0 <= i < s.len(),
        s[i].name@ == n,
    ensures
        has_entry(s, n),
        entry_index(s, n) == i,
{
    assert(has_entry(s, n));
    let k = entry_index(s, n);
    if k < i {
        assert(s[k].name@ != s[i].name@);
    } else if i < k {
        assert(s[i].name@ != s[k].name@);
    }
}

/// Whether a proxy can be created under the name `n`: not when the name is taken
pub open spec fn can_create<H>(m: Map<Seq<char>, (usize, H)>, n: Seq<char>) -> Result<(), StoreError> {
    if m.contains_key(n) {
        Err(StoreError::AlreadyExists)
    } else {
        Ok(())
    }
}

/// What looking up the proxy of name `n` gives: its launch ID and handle, or
/// `NotFound(Proxy)`
pub open spec fn lookup_result<H>(m: Map<Seq<char>, (usize, H)>, n: Seq<char>) -> Result<
    (usize, H),
    StoreError,
> {
    if m.contains_key(n) {
        Ok(m[n])
    } else {
        Err(StoreError::NotFound(ResourceKind::Proxy))
    }
}

/// The proxies once the launch `id` of the proxy `n` has ended: that launch is
/// removed, a later launch under the same name stays
pub open spec fn after_launch_ends<H>(m: Map<Seq<char>, (usize, H)>, n: Seq<char>, id: usize) -> Map<
    Seq<char>,
    (usize, H),
> {
    if m.contains_key(n) && m[n].0 == id {
        m.remove(n)
    } else {
        m
    }
}

proof fn lemma_map_after_set<H>(
    old_entries: Seq<ProxyEntry<H>>,
    i: int,
    name: String,
    id: usize,
    handle: H,
)
    requires
        unique_names(old_entries),
        0 <= i < old_entries.len(),
        old_entries[i].name@ == name@,
    ensures
        unique_names(old_entries.update(i, (ProxyEntry { name, id, handle }))),
        entries_map(old_entries.update(i, (ProxyEntry { name, id, handle }))) == entries_map(
            old_entries,
        ).insert(name@, (id, handle)),
{
    let n = name@;
    let s = old_entries.update(i, ProxyEntry { name, id, handle });
    assert(unique_names(s)) by {
        assert forall|a: int, b: int| 0 <= a < b < s.len() implies s[a].name@
            != s[b].name@ by {
            assert(old_entries[a].name@ != old_entries[b].name@);
        }
    }
    assert forall|k: Seq<char>| #[trigger]
        entries_map(s).contains_key(k) == entries_map(old_entries).insert(
            n,
            (id, handle),
        ).contains_key(k) by {
        if has_entry(s, k) {
            let j = entry_index(s, k);
            if j != i {
                assert(old_entries[j].name@ == k);
            }
        }
        if has_entry(old_entries, k) {
            let j = entry_index(old_entries, k);
            if j != i {
                assert(s[j].name@ == k);
            }
        }
    }
    assert forall|k: Seq<char>| #[trigger] entries_map(s).contains_key(k) implies entries_map(
        s,
    )[k] == entries_map(old_entries).insert(n, (id, handle))[k] by {
        if k == n {
            lemma_entry_index(s, n, i);
        } else {
            let j = entry_index(s, k);
            lemma_entry_index(s, k, j);
            lemma_entry_index(old_entries, k, j);
        }
    }
    assert(entries_map(s) =~= entries_map(old_entries).insert(n, (id, handle)));
}

proof fn lemma_map_after_push<H>(
    old_entries: Seq<ProxyEntry<H>>,
    name: String,
    id: usize,
    handle: H,
)
    requires
        unique_names(old_entries),
        !has_entry(old_entries, name@),
    ensures
        unique_names(old_entries.push((ProxyEntry { name, id, handle }))),
        entries_map(old_entries.push((ProxyEntry { name, id, handle }))) == entries_map(
            old_entries,
        ).insert(name@, (id, handle)),
{
    let n = name@;
    let s = old_entries.push(ProxyEntry { name, id, handle });
    let last = old_entries.len() as int;
    assert(unique_names(s)) by {
        assert forall|a: int, b: int| 0 <= a < b < s.len() implies s[a].name@
            != s[b].name@ by {
            if b == last {
                assert(old_entries[a].name@ == s[a].name@);
            } else {
                assert(old_entries[a].name@ != old_entries[b].name@);
            }
        }
    }
    assert forall|k: Seq<char>| #[trigger]
        entries_map(s).contains_key(k) == entries_map(old_entries).insert(
            n,
            (id, handle),
        ).contains_key(k) by {
        if has_entry(s, k) {
            let j = entry_index(s, k);
            if j != last {
                assert(old_entries[j].name@ == k);
            }
        }
        if has_entry(old_entries, k) {
            let j = entry_index(old_entries, k);
            assert(s[j].name@ == k);
        }
        if k == n {
            assert(s[last].name@ == k);
        }
    }
    assert forall|k: Seq<char>| #[trigger] entries_map(s).contains_key(k) implies entries_map(
        s,
    )[k] == entries_map(old_entries).insert(n, (id, handle))[k] by {
        if k == n {
            lemma_entry_index(s, n, last);
        } else {
            let j = entry_index(s, k);
            lemma_entry_index(s, k, j);
            lemma_entry_index(old_entries, k, j);
        }
    }
    assert(entries_map(s) =~= entries_map(old_entries).insert(n, (id, handle)));
}

impl<H> View for ProxyRegistry<H> {
    type V = Map<Seq<char>, (usize, H)>;

    closed spec fn view(&self) -> Map<Seq<char>, (usize, H)> {
        entries_map(self.entries@)
    }
}

impl<H> ProxyRegistry<H> {
    /// Well-formedness: no two entries share a name, and until the launch
    /// counter restarts, every launch ID held is below the next one
    pub closed spec fn wf(&self) -> bool {
        &&& unique_names(self.entries@)
        &&& (!self.wrapped ==> ids_below(self.entries@, self.next_id))
    }

    /// Whether the launch counter has gone past its largest value and restarted
    pub closed spec fn has_wrapped(&self) -> bool {
        self.wrapped
    }

    /// Until the launch counter restarts, every launch ID held is below the
    /// next one, so the next launch gets an ID that no held proxy has
    pub proof fn lemma_ids_below_next(&self)
        requires
            self.wf(),
            !self.has_wrapped(),
        ensures
            forall|n: Seq<char>| #[trigger]
                self@.contains_key(n) ==> self@[n].0 < self.next_launch_id(),
    {
    }

    /// The launch ID that the next proxy gets
    pub closed spec fn next_launch_id(&self) -> usize {
        self.next_id
    }

    /// An empty registry
    pub fn new() -> (r: Self)
        ensures
            r.wf(),
            r@ == Map::<Seq<char>, (usize, H)>::empty(),
            r.next_launch_id() == 0,
            !r.has_wrapped(),
    {
        let r = ProxyRegistry { entries: Vec::new(), next_id: 0, wrapped: false };
        assert(r@ =~= Map::<Seq<char>, (usize, H)>::empty());
        r
    }

    fn position(&self, name: &String) -> (r: Option<usize>)
        requires
            self.wf(),
        ensures
            match r {
                Some(i) => i < self.entries@.len() && self.entries@[i as int].name@ == name@,
                None => !has_entry(self.entries@, name@),
            },
    {
        let mut i: usize = 0;
        while i < self.entries.len()
            invariant
                0 <= i <= self.entries.len(),
                forall|j: int| 0 <= j < i ==> self.entries@[j].name@ != name@,
            decreases self.entries.len() - i,
        {
            if self.entries[i].name == *name {
                return Some(i);
            }
            i += 1;
        }
        None
    }

    /// Whether a proxy of this name is registered
    pub fn proxy_exists(&self, name: &str) -> (r: bool)
        requires
            self.wf(),
        ensures
            r == self@.contains_key(name@),
    {
        let name = name.to_owned();
        self.position(&name).is_some()
    }

    /// The launch ID and handle of the proxy of this name, if there is one
    pub fn get(&self, name: &str) -> (r: Option<(usize, &H)>)
        requires
            self.wf(),
        ensures
            match r {
                Some((id, h)) => self@.contains_key(name@) && self@[name@] == (id, *h),
                None => !self@.contains_key(name@),
            },
    {
        let name = name.to_owned();
        match self.position(&name) {
            Some(i) => {
                proof {
                    lemma_entry_index(self.entries@, name@, i as int);
                }
                Some((self.entries[i].id, &self.entries[i].handle))
            },
            None => None,
        }
    }

    /// Whether a proxy can be created under this name: a name that is taken gives
    /// `AlreadyExists`
    pub fn check_can_create(&self, name: &str) -> (r: Result<(), StoreError>)
        requires
            self.wf(),
        ensures
            r == can_create(self@, name@),
    {
        if self.proxy_exists(name) {
            Err(StoreError::AlreadyExists)
        } else {
            Ok(())
        }
    }

    /// The handle of the proxy of this name, or `NotFound(Proxy)`
    pub fn lookup(&self, name: &str) -> (r: Result<&H, StoreError>)
        requires
            self.wf(),
        ensures
            match r {
                Ok(h) => lookup_result(self@, name@) == Ok::<(usize, H), StoreError>((self@[name@].0, *h)),
                Err(e) => lookup_result(self@, name@) == Err::<(usize, H), StoreError>(e),
            },
    {
        match self.get(name) {
            Some((_id, h)) => Ok(h),
            None => Err(StoreError::NotFound(ResourceKind::Proxy)),
        }
    }

    /// Register a proxy under a name, with the next launch ID, which it returns;
    /// a proxy registered under the same name before is replaced. Until the
    /// launch counter restarts, the ID is one that no proxy held before has.
    pub fn insert(&mut self, name: String, handle: H) -> (r: usize)
        requires
            old(self).wf(),
        ensures
            final(self).wf(),
            r == old(self).next_launch_id(),
            final(self).next_launch_id() == (if r == usize::MAX {
                0
            } else {
                (r + 1) as usize
            }),
            final(self)@ == old(self)@.insert(name@, (r, handle)),
            final(self).has_wrapped() == (old(self).has_wrapped() || r == usize::MAX),
            !old(self).has_wrapped() ==> forall|n: Seq<char>| #[trigger]
                old(self)@.contains_key(n) ==> old(self)@[n].0 < r,
    {
        let id = self.next_id;
        self.next_id = if id == usize::MAX {
            0
        } else {
            id + 1
        };
        if id == usize::MAX {
            self.wrapped = true;
        }
        let ghost old_entries = self.entries@;
        let ghost n = name@;
        proof {
            if !self.wrapped {
                assert forall|k: Seq<char>| #[trigger] entries_map(old_entries).contains_key(k)
                    implies entries_map(old_entries)[k].0 < id by {
                    let j = entry_index(old_entries, k);
                    assert(old_entries[j].id < id);
                }
            }
        }
        match self.position(&name) {
            Some(i) => {
                proof {
                    lemma_map_after_set(old_entries, i as int, name, id, handle);
                }
                self.entries.set(i, ProxyEntry { name, id, handle });
            },
            None => {
                proof {
                    lemma_map_after_push(old_entries, name, id, handle);
                }
                self.entries.push(ProxyEntry { name, id, handle });
            },
        }
        proof {
            if !self.wrapped {
                let s = self.entries@;
                assert forall|j: int| 0 <= j < s.len() implies #[trigger] s[j].id < self.next_id by {
                    if s[j].id != id {
                        assert(s[j] == old_entries[j]);
                    }
                }
            }
        }
        id
    }

    fn remove_at(&mut self, i: usize) -> (r: ProxyEntry<H>)
        requires
            old(self).wf(),
            i < old(self).entries@.len(),
        ensures
            final(self).wf(),
            final(self).next_launch_id() == old(self).next_launch_id(),
            final(self).has_wrapped() == old(self).has_wrapped(),
            r == old(self).entries@[i as int],
            final(self)@ == old(self)@.remove(r.name@),
            old(self)@.contains_key(r.name@),
            old(self)@[r.name@] == (r.id, r.handle),
    {
        let ghost old_entries = self.entries@;
        let ghost n = old_entries[i as int].name@;
        let r = self.entries.remove(i);
        proof {
            let s = self.entries@;
            lemma_entry_index(old_entries, n, i as int);
            assert(unique_names(s)) by {
                assert forall|a: int, b: int| 0 <= a < b < s.len() implies s[a].name@
                    != s[b].name@ by {
                    let a0 = if a < i { a } else { a + 1 };
                    let b0 = if b < i { b } else { b + 1 };
                    assert(s[a] == old_entries[a0]);
                    assert(s[b] == old_entries[b0]);
                }
            }
            assert forall|k: Seq<char>| #[trigger]
                entries_map(s).contains_key(k) == entries_map(old_entries).remove(n).contains_key(
                    k,
                ) by {
                if has_entry(s, k) {
                    let j = entry_index(s, k);
                    let j0 = if j < i { j } else { j + 1 };
                    assert(old_entries[j0].name@ == k);
                    assert(old_entries[j0].name@ != old_entries[i as int].name@);
                }
                if has_entry(old_entries, k) && k != n {
                    let j = entry_index(old_entries, k);
                    if j < i {
                        assert(s[j].name@ == k);
                    } else {
                        assert(j != i);
                        assert(s[j - 1].name@ == k);
                    }
                }
            }
            assert forall|k: Seq<char>| #[trigger] entries_map(s).contains_key(k) implies entries_map(
                s,
            )[k] == entries_map(old_entries).remove(n)[k] by {
                let j = entry_index(s, k);
                lemma_entry_index(s, k, j);
                let j0 = if j < i { j } else { j + 1 };
                assert(old_entries[j0] == s[j]);
                lemma_entry_index(old_entries, k, j0);
            }
            assert(entries_map(s) =~= entries_map(old_entries).remove(n));
        }
        r
    }

    /// Take the proxy of this name out of the registry, if there is one
    pub fn remove(&mut self, name: &str) -> (r: Option<(usize, H)>)
        requires
            old(self).wf(),
        ensures
            final(self).wf(),
            final(self).next_launch_id() == old(self).next_launch_id(),
            final(self).has_wrapped() == old(self).has_wrapped(),
            match r {
                Some(e) => {
                    &&& old(self)@.contains_key(name@)
                    &&& old(self)@[name@] == e
                    &&& final(self)@ == old(self)@.remove(name@)
                },
                None => !old(self)@.contains_key(name@) && final(self)@ == old(self)@,
            },
    {
        let name = name.to_owned();
        match self.position(&name) {
            Some(i) => {
                let e = self.remove_at(i);
                Some((e.id, e.handle))
            },
            None => None,
        }
    }

    /// Take the proxy of this name out of the registry when it is the launch
    /// with this ID; a proxy launched again under the same name stays
    pub fn remove_if_launch(&mut self, name: &str, id: usize) -> (r: Option<H>)
        requires
            old(self).wf(),
        ensures
            final(self).wf(),
            final(self).next_launch_id() == old(self).next_launch_id(),
            final(self).has_wrapped() == old(self).has_wrapped(),
            final(self)@ == after_launch_ends(old(self)@, name@, id),
            match r {
                Some(h) => old(self)@.contains_key(name@) && old(self)@[name@] == (id, h),
                None => !(old(self)@.contains_key(name@) && old(self)@[name@].0 == id),
            },
    {
        let name = name.to_owned();
        match self.position(&name) {
            Some(i) => {
                proof {
                    lemma_entry_index(self.entries@, name@, i as int);
                }
                if self.entries[i].id == id {
                    let e = self.remove_at(i);
                    Some(e.handle)
                } else {
                    None
                }
            },
            None => None,
        }
    }

    /// The registered proxies, one entry per name
    pub fn entries(&self) -> (r: &Vec<ProxyEntry<H>>)
        requires
            self.wf(),
        ensures
            unique_names(r@),
            entries_map(r@) == self@,
    {
        &self.entries
    }
}

/// Once a proxy is registered under a name, looking the name up finds it, and
/// creating another proxy under that name is refused with `AlreadyExists`
pub proof fn law_register_then_lookup<H>(m: Map<Seq<char>, (usize, H)>, n: Seq<char>, id: usize, h: H)
    ensures
        lookup_result(m.insert(n, (id, h)), n) == Ok::<(usize, H), StoreError>((id, h)),
        can_create(m.insert(n, (id, h)), n) == Err::<(), StoreError>(StoreError::AlreadyExists),
{
}

/// Once the proxy of a name is removed, looking the name up gives
/// `NotFound(Proxy)`, and a proxy can be created under that name again
pub proof fn law_remove_then_lookup<H>(m: Map<Seq<char>, (usize, H)>, n: Seq<char>)
    ensures
        lookup_result(m.remove(n), n) == Err::<(usize, H), StoreError>(
            StoreError::NotFound(ResourceKind::Proxy),
        ),
        can_create(m.remove(n), n) == Ok::<(), StoreError>(()),
{
}

/// Registering or removing a proxy leaves the lookup of every other name as it was
pub proof fn law_other_names_untouched<H>(
    m: Map<Seq<char>, (usize, H)>,
    n: Seq<char>,
    k: Seq<char>,
    v: (usize, H),
)
    requires
        k != n,
    ensures
        lookup_result(m.insert(n, v), k) == lookup_result(m, k),
        lookup_result(m.remove(n), k) == lookup_result(m, k),
{
}

/// When a proxy was launched again under its name, the end of its earlier
/// launch leaves the new launch registered
pub proof fn law_relaunch_survives_old_launch<H>(
    m: Map<Seq<char>, (usize, H)>,
    n: Seq<char>,
    old_id: usize,
    new_id: usize,
    h: H,
)
    requires
        old_id != new_id,
    ensures
        lookup_result(after_launch_ends(m.insert(n, (new_id, h)), n, old_id), n) == Ok::<
            (usize, H),
            StoreError,
        >((new_id, h)),
{
}

/// The first validation error among these configurations, in order
pub open spec fn first_invalid(configs: Seq<ProxyConfig>) -> Result<(), ProxyValidateError>
    decreases configs.len(),
{
    if configs.len() == 0 {
        Ok(())
    } else {
        match validate_result(configs[0].name@, configs[0].upstream@, configs[0].listen@) {
            Ok(()) => first_invalid(configs.drop_first()),
            Err(e) => Err(e),
        }
    }
}

/// Validate all the configurations of a populate request, before any proxy is
/// touched: the first invalid one, in order, gives the error
pub fn validate_all(configs: &Vec<ProxyConfig>) -> (r: Result<(), ProxyValidateError>)
    ensures
        r == first_invalid(configs@),
{
    let mut i: usize = 0;
    assert(configs@.skip(0) == configs@);
    while i < configs.len()
        invariant
            0 <= i <= configs.len(),
            first_invalid(configs@) == first_invalid(configs@.skip(i as int)),
        decreases configs.len() - i,
    {
        assert(configs@.skip(i as int).drop_first() == configs@.skip(i + 1));
        assert(configs@.skip(i as int)[0] == configs@[i as int]);
        if let Err(err) = configs[i].validate() {
            return Err(err);
        }
        i += 1;
    }
    assert(configs@.skip(i as int).len() == 0);
    Ok(())
}

/// The configuration a proxy is created with: the store's random seed, when it
/// has one, replaces the configuration's
pub fn config_with_seed(config: ProxyConfig, rand_seed: Option<u64>) -> (r: ProxyConfig)
    ensures
        r.name == config.name,
        r.listen == config.listen,
        r.upstream == config.upstream,
        r.enabled == config.enabled,
        r.rand_seed == (match rand_seed {
            Some(seed) => Some(seed),
            None => config.rand_seed,
        }),
{
    let mut config = config;
    if let Some(seed) = rand_seed {
        config.rand_seed = Some(seed);
    }
    config
}

} // verus!
