use vstd::prelude::*;

use crate::error::ToxicUpdateError;
use crate::toxic::{
    contains_name, first_with_name, has_name_at, lemma_name_index, list_update_result, name_index,
    position_of_name, update_toxic_list_in_place, StreamDirection, Toxic, ToxicEvent,
    ToxicEventKind,
};

verus! {

/// The immutable configuration for a proxy
#[derive(Debug, PartialEq)]
pub struct ProxyConfig {
    /// An arbitrary name
    pub name: String,
    /// The host name and the port the proxy listens on, like 127.0.0.1:5431
    pub listen: String,
    /// The host name and the port the proxy connects to, like 127.0.0:5432
    pub upstream: String,
    /// The client can set the enabled field to false to stop this proxy.
    /// Proxies are enabled by default
    pub enabled: bool,
    /// A random seed. Not exposed in the API
    pub rand_seed: Option<u64>,
}

impl Clone for ProxyConfig {
    fn clone(&self) -> (r: Self)
        ensures
            r == *self,
    {
        ProxyConfig {
            name: self.name.clone(),
            listen: self.listen.clone(),
            upstream: self.upstream.clone(),
            enabled: self.enabled,
            rand_seed: self.rand_seed,
        }
    }
}

/// The value `enabled` takes when a configuration leaves it out
pub fn default_enabled() -> (r: bool)
    ensures
        r,
{
    true
}

/// Errors return when ProxyConfig validation fails
#[derive(Debug, Clone, Copy, PartialEq, Eq, Structural)]
pub enum ProxyValidateError {
    /// The name field is empty
    MissingName,
    /// The upstream field is empty
    MissingUpstream,
    /// The listen field is empty
    MissingListen,
}

/// What validating a configuration with these name, upstream and listen fields gives
pub open spec fn validate_result(name: Seq<char>, upstream: Seq<char>, listen: Seq<char>) -> Result<
    (),
    ProxyValidateError,
> {
    if name.len() == 0 {
        Err(ProxyValidateError::MissingName)
    } else if upstream.len() == 0 {
        Err(ProxyValidateError::MissingUpstream)
    } else if listen.len() == 0 {
        Err(ProxyValidateError::MissingListen)
    } else {
        Ok(())
    }
}

impl ProxyConfig {
    /// Whether this configuration passes validation
    pub open spec fn is_valid(&self) -> bool {
        validate_result(self.name@, self.upstream@, self.listen@) is Ok
    }

    /// Validate the proxy config, return `ProxyValidateError` if invalid.
    /// The fields are checked in the order name, upstream, listen; the first
    /// empty one is reported.
    pub fn validate(&self) -> (r: Result<(), ProxyValidateError>)
        ensures
            r == validate_result(self.name@, self.upstream@, self.listen@),
            r is Ok <==> (self.name@.len() > 0 && self.upstream@.len() > 0 && self.listen@.len()
                > 0),
            self.name@.len() == 0 ==> r == Err::<(), ProxyValidateError>(
                ProxyValidateError::MissingName,
            ),
    {
        if self.name.as_str().is_empty() {
            Err(ProxyValidateError::MissingName)
        } else if self.upstream.as_str().is_empty() {
            Err(ProxyValidateError::MissingUpstream)
        } else if self.listen.as_str().is_empty() {
            Err(ProxyValidateError::MissingListen)
        } else {
            Ok(())
        }
    }
}

/// A configuration is valid exactly when its name, upstream and listen fields
/// are all non-empty; an invalid one reports the first empty field in the order
/// name, upstream, listen: an empty name always gives `MissingName`.
pub proof fn law_validation_reports_first_missing_field(c: ProxyConfig)
    ensures
        c.is_valid() <==> (c.name@.len() > 0 && c.upstream@.len() > 0 && c.listen@.len() > 0),
        c.name@.len() == 0 ==> validate_result(c.name@, c.upstream@, c.listen@) == Err::<
            (),
            ProxyValidateError,
        >(ProxyValidateError::MissingName),
        c.name@.len() > 0 && c.upstream@.len() == 0 ==> validate_result(
            c.name@,
            c.upstream@,
            c.listen@,
        ) == Err::<(), ProxyValidateError>(ProxyValidateError::MissingUpstream),
        c.name@.len() > 0 && c.upstream@.len() > 0 && c.listen@.len() == 0 ==> validate_result(
            c.name@,
            c.upstream@,
            c.listen@,
        ) == Err::<(), ProxyValidateError>(ProxyValidateError::MissingListen),
{
}

/// Toxics applied on a proxy connection
#[derive(Debug)]
pub struct Toxics {
    /// The toxics applied on the upstream link
    pub upstream: Vec<Toxic>,
    /// The toxics applied on the downstream link
    pub downstream: Vec<Toxic>,
}

impl Clone for Toxics {
    fn clone(&self) -> (r: Self)
        ensures
            r.upstream@ == self.upstream@,
            r.downstream@ == self.downstream@,
    {
        Toxics { upstream: clone_toxic_vec(&self.upstream), downstream: clone_toxic_vec(&self.downstream) }
    }
}

/// A copy of a list of toxics
pub fn clone_toxic_vec(v: &Vec<Toxic>) -> (r: Vec<Toxic>)
    ensures
        r@ == v@,
{
    let mut r: Vec<Toxic> = Vec::new();
    let mut i: usize = 0;
    while i < v.len()
        invariant
            0 <= i <= v.len(),
            r@ == v@.subrange(0, i as int),
        decreases v.len() - i,
    {
        r.push(v[i].clone());
        i += 1;
    }
    assert(v@.subrange(0, v@.len() as int) == v@);
    r
}

/// The toxic that looking up the name `n` in these lists finds: the first one
/// of that name upstream, else the first one of that name downstream.
pub open spec fn find_result(up: Seq<Toxic>, down: Seq<Toxic>, n: Seq<char>) -> Option<Toxic> {
    if contains_name(up, n) {
        Some(up[name_index(up, n)])
    } else if contains_name(down, n) {
        Some(down[name_index(down, n)])
    } else {
        None
    }
}

/// Whether some toxic of the proxy, upstream or downstream, has the name `n`
pub open spec fn name_taken(up: Seq<Toxic>, down: Seq<Toxic>, n: Seq<char>) -> bool {
    contains_name(up, n) || contains_name(down, n)
}

/// What applying an event to the toxics of a proxy gives: the new upstream and
/// downstream lists; `AlreadyExists` when a toxic is added under a name that a
/// toxic of the proxy has, `NotFound` when no toxic is found for the event.
pub open spec fn toxics_update_result(
    up: Seq<Toxic>,
    down: Seq<Toxic>,
    kind: ToxicEventKind,
) -> Result<(Seq<Toxic>, Seq<Toxic>), ToxicUpdateError> {
    match kind {
        ToxicEventKind::RemoveAllToxics => Ok((Seq::empty(), Seq::empty())),
        ToxicEventKind::AddToxic(t) if name_taken(up, down, t.name@) => Err(
            ToxicUpdateError::AlreadyExists,
        ),
        _ => match list_update_result(up, kind, StreamDirection::Upstream) {
            Some(u) => Ok((u, down)),
            None => match list_update_result(down, kind, StreamDirection::Downstream) {
                Some(d) => Ok((up, d)),
                None => Err(ToxicUpdateError::NotFound),
            },
        },
    }
}

impl Toxics {
    /// Initialize an empty set up toxics
    pub fn empty() -> (r: Self)
        ensures
            r.upstream@.len() == 0,
            r.downstream@.len() == 0,
    {
        Toxics { upstream: Vec::new(), downstream: Vec::new() }
    }

    /// Consume this Toxics struct to combine upstream and downstream toxics in a
    /// flat vec: the upstream ones first, then the downstream ones
    pub fn into_vec(self) -> (r: Vec<Toxic>)
        ensures
            r@ == self.upstream@ + self.downstream@,
    {
        let mut up = self.upstream;
        let mut down = self.downstream;
        up.append(&mut down);
        up
    }

    /// Find a toxic by name in upstream and downstream lists
    pub fn find_by_name(&self, toxic_name: &str) -> (r: Option<Toxic>)
        ensures
            r == find_result(self.upstream@, self.downstream@, toxic_name@),
    {
        let name = toxic_name.to_owned();
        match position_of_name(&self.upstream, &name) {
            Some(i) => Some(self.upstream[i].clone()),
            None => match position_of_name(&self.downstream, &name) {
                Some(i) => Some(self.downstream[i].clone()),
                None => None,
            },
        }
    }
}

/// Update the toxics collection in place. Toxic names are unique: adding a
/// toxic under a name that is taken gives `AlreadyExists`, and an event that
/// finds no toxic to act on gives `NotFound`; either leaves the collection as
/// it is.
pub fn update_toxics(event: ToxicEvent, toxics: &mut Toxics) -> (r: Result<(), ToxicUpdateError>)
    ensures
        match toxics_update_result(old(toxics).upstream@, old(toxics).downstream@, event.kind) {
            Ok((u, d)) => r is Ok && final(toxics).upstream@ == u && final(toxics).downstream@ == d,
            Err(e) => r == Err::<(), ToxicUpdateError>(e) && final(toxics).upstream@ == old(
                toxics,
            ).upstream@ && final(toxics).downstream@ == old(toxics).downstream@,
        },
{
    if let ToxicEventKind::AddToxic(t) = &event.kind {
        let taken = position_of_name(&toxics.upstream, &t.name).is_some() || position_of_name(
            &toxics.downstream,
            &t.name,
        ).is_some();
        if taken {
            return Err(ToxicUpdateError::AlreadyExists);
        }
    }
    match event.kind {
        ToxicEventKind::RemoveAllToxics => {
            toxics.upstream.clear();
            toxics.downstream.clear();
            Ok(())
        },
        kind => match update_toxic_list_in_place(&mut toxics.upstream, kind, StreamDirection::Upstream) {
            Ok(()) => Ok(()),
            Err(kind) => match update_toxic_list_in_place(
                &mut toxics.downstream,
                kind,
                StreamDirection::Downstream,
            ) {
                Ok(()) => Ok(()),
                Err(_) => Err(ToxicUpdateError::NotFound),
            },
        },
    }
}

/// The serializable API response
#[derive(Debug)]
pub struct ProxyWithToxics {
    /// The proxy details
    pub proxy: ProxyConfig,
    /// Toxics installed on the proxy
    pub toxics: Vec<Toxic>,
}

impl ProxyWithToxics {
    /// Create the full ProxyWithToxics from a proxy's configuration and its toxics
    pub fn from_parts(proxy_config: ProxyConfig, toxics: Toxics) -> (r: Self)
        ensures
            r.proxy == proxy_config,
            r.toxics@ == toxics.upstream@ + toxics.downstream@,
    {
        ProxyWithToxics { proxy: proxy_config, toxics: toxics.into_vec() }
    }

    /// Create a new ProxyWithToxics with empty toxics
    pub fn from_proxy_config(proxy_config: ProxyConfig) -> (r: Self)
        ensures
            r.proxy == proxy_config,
            r.toxics@.len() == 0,
    {
        ProxyWithToxics { proxy: proxy_config, toxics: Vec::new() }
    }
}

/// The proxy runner
#[derive(Debug, Copy, Clone)]
pub struct ProxyRunner;

/// No two toxics of the sequence share a name
pub open spec fn names_unique(s: Seq<Toxic>) -> bool {
    forall|i: int, j: int| 0 <= i < j < s.len() ==> s[i].name@ != s[j].name@
}

proof fn lemma_contains_concat(a: Seq<Toxic>, b: Seq<Toxic>, n: Seq<char>)
    ensures
        contains_name(a + b, n) <==> (contains_name(a, n) || contains_name(b, n)),
{
    if contains_name(a + b, n) {
        let i = choose|i: int| has_name_at(a + b, n, i);
        if i < a.len() {
            assert(has_name_at(a, n, i));
        } else {
            assert(has_name_at(b, n, i - a.len()));
        }
    }
    if contains_name(a, n) {
        let i = choose|i: int| has_name_at(a, n, i);
        assert(has_name_at(a + b, n, i));
    }
    if contains_name(b, n) {
        let i = choose|i: int| has_name_at(b, n, i);
        assert(has_name_at(a + b, n, a.len() + i));
    }
}

proof fn lemma_absent_after_remove(s: Seq<Toxic>, n: Seq<char>)
    requires
        names_unique(s),
        contains_name(s, n),
    ensures
        !contains_name(s.remove(name_index(s, n)), n),
{
    lemma_name_index(s, n);
    let k = name_index(s, n);
    let r = s.remove(k);
    if contains_name(r, n) {
        let i = choose|i: int| has_name_at(r, n, i);
        if i < k {
            assert(s[i].name@ == n);
        } else {
            assert(s[i + 1].name@ == n);
            assert(s[k].name@ == n);
        }
    }
}

proof fn lemma_found_after_update(s: Seq<Toxic>, t: Toxic)
    requires
        names_unique(s),
        contains_name(s, t.name@),
    ensures
        contains_name(s.update(name_index(s, t.name@), t), t.name@),
        name_index(s.update(name_index(s, t.name@), t), t.name@) == name_index(s, t.name@),
{
    let n = t.name@;
    lemma_name_index(s, n);
    let k = name_index(s, n);
    let u = s.update(k, t);
    assert(has_name_at(u, n, k));
    assert(first_with_name(u, n, k));
    lemma_name_index(u, n);
}

proof fn lemma_add_fresh(up: Seq<Toxic>, down: Seq<Toxic>, t: Toxic)
    requires
        !contains_name(up, t.name@),
        !contains_name(down, t.name@),
    ensures
        match toxics_update_result(up, down, ToxicEventKind::AddToxic(t)) {
            Ok((u, d)) => {
                &&& find_result(u, d, t.name@) == Some(t)
                &&& (names_unique(up + down) ==> names_unique(u + d))
            },
            Err(_) => false,
        },
{
    let n = t.name@;
    if t.direction == StreamDirection::Upstream {
        let u = up.push(t);
        assert(has_name_at(u, n, up.len() as int));
        assert forall|j: int| 0 <= j < up.len() implies u[j].name@ != n by {
            assert(!has_name_at(up, n, j));
        }
        assert(first_with_name(u, n, up.len() as int));
        lemma_name_index(u, n);
        if names_unique(up + down) {
            assert forall|i: int, j: int| 0 <= i < j < (u + down).len() implies (u + down)[i].name@
                != (u + down)[j].name@ by {
                if i == up.len() {
                    assert(!has_name_at(down, n, j - u.len()));
                } else if j == up.len() {
                    assert(!has_name_at(up, n, i));
                } else {
                    let i0 = if i < up.len() { i } else { i - 1 };
                    let j0 = if j < up.len() { j } else { j - 1 };
                    assert((up + down)[i0] == (u + down)[i]);
                    assert((up + down)[j0] == (u + down)[j]);
                }
            }
        }
    } else {
        let d = down.push(t);
        assert(has_name_at(d, n, down.len() as int));
        assert forall|j: int| 0 <= j < down.len() implies d[j].name@ != n by {
            assert(!has_name_at(down, n, j));
        }
        assert(first_with_name(d, n, down.len() as int));
        lemma_name_index(d, n);
        assert((up + down).push(t) == up + d);
        if names_unique(up + down) {
            assert forall|i: int, j: int| 0 <= i < j < (up + d).len() implies (up + d)[i].name@
                != (up + d)[j].name@ by {
                if j == (up + down).len() {
                    if i < up.len() {
                        assert(!has_name_at(up, n, i));
                    } else {
                        assert(!has_name_at(down, n, i - up.len()));
                    }
                } else {
                    assert((up + down)[i] == (up + d)[i]);
                    assert((up + down)[j] == (up + d)[j]);
                }
            }
        }
    }
}

/// Adding a toxic is refused with `AlreadyExists` exactly when a toxic of the
/// proxy has its name; otherwise a lookup of that name finds exactly the added
/// toxic, and names that were unique stay unique.
pub proof fn law_add_then_find(up: Seq<Toxic>, down: Seq<Toxic>, t: Toxic)
    ensures
        match toxics_update_result(up, down, ToxicEventKind::AddToxic(t)) {
            Ok((u, d)) => {
                &&& !name_taken(up, down, t.name@)
                &&& find_result(u, d, t.name@) == Some(t)
                &&& (names_unique(up + down) ==> names_unique(u + d))
            },
            Err(e) => e == ToxicUpdateError::AlreadyExists && name_taken(up, down, t.name@),
        },
{
    if !name_taken(up, down, t.name@) {
        lemma_add_fresh(up, down, t);
    }
}

proof fn lemma_unique_parts(up: Seq<Toxic>, down: Seq<Toxic>)
    requires
        names_unique(up + down),
    ensures
        names_unique(up),
        names_unique(down),
{
    assert forall|i: int, j: int| 0 <= i < j < up.len() implies up[i].name@ != up[j].name@ by {
        assert((up + down)[i] == up[i]);
        assert((up + down)[j] == up[j]);
    }
    assert forall|i: int, j: int| 0 <= i < j < down.len() implies down[i].name@
        != down[j].name@ by {
        assert((up + down)[up.len() + i] == down[i]);
        assert((up + down)[up.len() + j] == down[j]);
    }
}

proof fn lemma_unique_update(s: Seq<Toxic>, k: int, t: Toxic)
    requires
        names_unique(s),
        0 <= k < s.len(),
        s[k].name@ == t.name@,
    ensures
        names_unique(s.update(k, t)),
{
    let u = s.update(k, t);
    assert forall|i: int, j: int| 0 <= i < j < u.len() implies u[i].name@ != u[j].name@ by {
        assert(u[i].name@ == s[i].name@);
        assert(u[j].name@ == s[j].name@);
    }
}

proof fn lemma_unique_remove(s: Seq<Toxic>, k: int)
    requires
        names_unique(s),
        0 <= k < s.len(),
    ensures
        names_unique(s.remove(k)),
{
    let r = s.remove(k);
    assert forall|i: int, j: int| 0 <= i < j < r.len() implies r[i].name@ != r[j].name@ by {
        let i0 = if i < k { i } else { i + 1 };
        let j0 = if j < k { j } else { j + 1 };
        assert(r[i] == s[i0]);
        assert(r[j] == s[j0]);
    }
}

/// Every event that succeeds keeps the names of a proxy's toxics, upstream and
/// downstream together, pairwise distinct.
pub proof fn law_names_stay_unique(up: Seq<Toxic>, down: Seq<Toxic>, kind: ToxicEventKind)
    requires
        names_unique(up + down),
    ensures
        match toxics_update_result(up, down, kind) {
            Ok((u, d)) => names_unique(u + d),
            Err(_) => true,
        },
{
    match kind {
        ToxicEventKind::RemoveAllToxics => {
            assert(Seq::<Toxic>::empty() + Seq::<Toxic>::empty() =~= Seq::<Toxic>::empty());
        },
        ToxicEventKind::AddToxic(t) => {
            law_add_then_find(up, down, t);
        },
        ToxicEventKind::UpdateToxic(t) => {
            let n = t.name@;
            if t.direction == StreamDirection::Upstream && contains_name(up, n) {
                lemma_name_index(up, n);
                let k = name_index(up, n);
                assert(up.update(k, t) + down =~= (up + down).update(k, t));
                lemma_unique_update(up + down, k, t);
            } else if t.direction == StreamDirection::Downstream && contains_name(down, n) {
                lemma_name_index(down, n);
                let k = name_index(down, n);
                assert(up + down.update(k, t) =~= (up + down).update(up.len() + k, t));
                lemma_unique_update(up + down, up.len() + k, t);
            }
        },
        ToxicEventKind::RemoveToxic(name) => {
            let n = name@;
            if contains_name(up, n) {
                lemma_name_index(up, n);
                let k = name_index(up, n);
                assert(up.remove(k) + down =~= (up + down).remove(k));
                lemma_unique_remove(up + down, k);
            } else if contains_name(down, n) {
                lemma_name_index(down, n);
                let k = name_index(down, n);
                assert(up + down.remove(k) =~= (up + down).remove(up.len() + k));
                lemma_unique_remove(up + down, up.len() + k);
            }
        },
    }
}

/// An update goes to the list of the toxic's own direction: when that list holds
/// a toxic of the same name, the first such toxic is replaced by the new one and
/// the other list is left as it is; an update is refused with `NotFound` only
/// when that list holds no toxic of that name.
pub proof fn law_update_in_its_direction(up: Seq<Toxic>, down: Seq<Toxic>, t: Toxic)
    ensures
        t.direction == StreamDirection::Upstream && (exists|i: int|
            0 <= i < up.len() && #[trigger] up[i].name@ == t.name@) ==> exists|k: int|
            0 <= k < up.len() && up[k].name@ == t.name@ && (forall|j: int|
                0 <= j < k ==> up[j].name@ != t.name@) && #[trigger] toxics_update_result(
                up,
                down,
                ToxicEventKind::UpdateToxic(t),
            ) == Ok::<(Seq<Toxic>, Seq<Toxic>), ToxicUpdateError>((up.update(k, t), down)),
        t.direction == StreamDirection::Downstream && (exists|i: int|
            0 <= i < down.len() && #[trigger] down[i].name@ == t.name@) ==> exists|k: int|
            0 <= k < down.len() && down[k].name@ == t.name@ && (forall|j: int|
                0 <= j < k ==> down[j].name@ != t.name@) && #[trigger] toxics_update_result(
                up,
                down,
                ToxicEventKind::UpdateToxic(t),
            ) == Ok::<(Seq<Toxic>, Seq<Toxic>), ToxicUpdateError>((up, down.update(k, t))),
        toxics_update_result(up, down, ToxicEventKind::UpdateToxic(t)) is Err ==> {
            &&& toxics_update_result(up, down, ToxicEventKind::UpdateToxic(t)) == Err::<
                (Seq<Toxic>, Seq<Toxic>),
                ToxicUpdateError,
            >(ToxicUpdateError::NotFound)
            &&& t.direction == StreamDirection::Upstream ==> forall|i: int|
                0 <= i < up.len() ==> up[i].name@ != t.name@
            &&& t.direction == StreamDirection::Downstream ==> forall|i: int|
                0 <= i < down.len() ==> down[i].name@ != t.name@
        },
{
    let n = t.name@;
    if t.direction == StreamDirection::Upstream && (exists|i: int|
        0 <= i < up.len() && #[trigger] up[i].name@ == n) {
        let i = choose|i: int| 0 <= i < up.len() && #[trigger] up[i].name@ == n;
        assert(has_name_at(up, n, i));
        lemma_name_index(up, n);
        let k = name_index(up, n);
        assert(toxics_update_result(up, down, ToxicEventKind::UpdateToxic(t)) == Ok::<
            (Seq<Toxic>, Seq<Toxic>),
            ToxicUpdateError,
        >((up.update(k, t), down)));
    }
    if t.direction == StreamDirection::Downstream && (exists|i: int|
        0 <= i < down.len() && #[trigger] down[i].name@ == n) {
        let i = choose|i: int| 0 <= i < down.len() && #[trigger] down[i].name@ == n;
        assert(has_name_at(down, n, i));
        lemma_name_index(down, n);
        let k = name_index(down, n);
        assert(toxics_update_result(up, down, ToxicEventKind::UpdateToxic(t)) == Ok::<
            (Seq<Toxic>, Seq<Toxic>),
            ToxicUpdateError,
        >((up, down.update(k, t))));
    }
    if toxics_update_result(up, down, ToxicEventKind::UpdateToxic(t)) is Err {
        if t.direction == StreamDirection::Upstream {
            assert forall|i: int| 0 <= i < up.len() implies up[i].name@ != n by {
                if up[i].name@ == n {
                    assert(has_name_at(up, n, i));
                }
            }
        } else {
            assert forall|i: int| 0 <= i < down.len() implies down[i].name@ != n by {
                if down[i].name@ == n {
                    assert(has_name_at(down, n, i));
                }
            }
        }
    }
}

/// With unique names, an update of a toxic whose name the list of its own
/// direction holds succeeds, and a lookup of the name then finds exactly the new
/// toxic.
pub proof fn law_update_of_present_toxic_succeeds(up: Seq<Toxic>, down: Seq<Toxic>, t: Toxic)
    requires
        names_unique(up + down),
        t.direction == StreamDirection::Upstream ==> exists|i: int|
            0 <= i < up.len() && #[trigger] up[i].name@ == t.name@,
        t.direction == StreamDirection::Downstream ==> exists|i: int|
            0 <= i < down.len() && #[trigger] down[i].name@ == t.name@,
    ensures
        match toxics_update_result(up, down, ToxicEventKind::UpdateToxic(t)) {
            Ok((u, d)) => find_result(u, d, t.name@) == Some(t),
            Err(_) => false,
        },
{
    law_update_in_its_direction(up, down, t);
    law_update_then_find(up, down, t);
}

/// When the names of a proxy's toxics are unique, a successful update makes a
/// lookup of the name find exactly the new toxic.
pub proof fn law_update_then_find(up: Seq<Toxic>, down: Seq<Toxic>, t: Toxic)
    requires
        names_unique(up + down),
    ensures
        match toxics_update_result(up, down, ToxicEventKind::UpdateToxic(t)) {
            Ok((u, d)) => find_result(u, d, t.name@) == Some(t),
            Err(_) => true,
        },
{
    let n = t.name@;
    lemma_unique_parts(up, down);
    if t.direction == StreamDirection::Upstream && contains_name(up, n) {
        lemma_found_after_update(up, t);
        lemma_name_index(up, n);
    } else if t.direction == StreamDirection::Downstream && contains_name(down, n) {
        lemma_found_after_update(down, t);
        lemma_name_index(down, n);
        if contains_name(up, n) {
            let i = choose|i: int| has_name_at(up, n, i);
            let j = name_index(down, n);
            assert((up + down)[i] == up[i]);
            assert((up + down)[up.len() + j] == down[j]);
        }
    }
}

/// When the names of a proxy's toxics are unique, a successful removal of a
/// name leaves no toxic that a lookup of that name finds.
pub proof fn law_remove_then_absent(up: Seq<Toxic>, down: Seq<Toxic>, n: String)
    requires
        names_unique(up + down),
    ensures
        match toxics_update_result(up, down, ToxicEventKind::RemoveToxic(n)) {
            Ok((u, d)) => find_result(u, d, n@) is None,
            Err(_) => true,
        },
{
    lemma_unique_parts(up, down);
    if contains_name(up, n@) {
        lemma_absent_after_remove(up, n@);
        lemma_name_index(up, n@);
        if contains_name(down, n@) {
            let i = name_index(up, n@);
            let j = choose|j: int| has_name_at(down, n@, j);
            assert((up + down)[i] == up[i]);
            assert((up + down)[up.len() + j] == down[j]);
        }
    } else if contains_name(down, n@) {
        lemma_absent_after_remove(down, n@);
    }
}

/// A lookup by name finds a toxic exactly when the flat list of the proxy's
/// toxics holds one of that name, and what it finds is one of them.
pub proof fn law_find_agrees_with_list(up: Seq<Toxic>, down: Seq<Toxic>, n: Seq<char>)
    ensures
        find_result(up, down, n) is Some <==> contains_name(up + down, n),
        match find_result(up, down, n) {
            Some(t) => t.name@ == n && exists|i: int| 0 <= i < (up + down).len() && (up + down)[i] == t,
            None => true,
        },
{
    lemma_contains_concat(up, down, n);
    if contains_name(up, n) {
        lemma_name_index(up, n);
        let i = name_index(up, n);
        assert((up + down)[i] == up[i]);
    } else if contains_name(down, n) {
        lemma_name_index(down, n);
        let j = name_index(down, n);
        assert((up + down)[up.len() + j] == down[j]);
    }
}

} // verus!
