use vstd::prelude::*;
use vstd::string::*;

use crate::text::{decimal, push_decimal};

verus! {

/// The direction of a link: which way the data flows
#[derive(Clone, Copy, Debug, PartialEq, Eq, Structural)]
pub enum StreamDirection {
    /// Represents an I/O channel from server to the client
    Downstream,
    /// Represents an I/O channel from the client to the server
    Upstream,
}

/// Toxic kind and toxic-specific attributes
#[derive(Clone, Copy, Debug, PartialEq, Eq, Structural)]
pub enum ToxicKind {
    /// Passes all data through without any toxic effects
    Noop,
    /// Passes data through with the a delay of latency +/- jitter added
    Latency {
        /// Latency to be added, in milliseconds
        latency: u64,
        /// Jitter to be added to the latency, also in milliseconds
        jitter: u64,
    },
    /// Stops any data from flowing through, and will close the connection after a timeout
    Timeout {
        /// in milliseconds
        timeout: u64,
    },
    /// Passes data through at a limited rate
    Bandwidth {
        /// in KB/S
        rate: u64,
    },
    /// Stops the TCP connection from closing until after a delay
    SlowClose {
        /// in milliseconds
        delay: u64,
    },
    /// Slices data into multiple smaller packets
    Slicer {
        /// Average number of bytes to slice at
        average_size: u64,
        /// +/- bytes to vary sliced amounts. Must be less than the average size
        size_variation: u64,
        /// Microseconds to delay each packet.
        delay: u64,
    },
    /// Adds a limit of bytes transferred to the proxy session
    LimitData {
        /// the limit
        bytes: u64,
    },
}

/// Something that can be attached to a link to modify the way the data is passed through.
///
/// The probability of the toxic being active is an `f32`; it is carried here as
/// the IEEE-754 bit pattern of that number (`f32::to_bits`), so that the value
/// travels through the library unchanged.
#[derive(Debug)]
pub struct Toxic {
    /// The kind which also contains kind-specific attributes
    pub kind: ToxicKind,
    /// The unique name for this toxic
    pub name: String,
    /// The bit pattern of the `f32` probability of this toxic being active
    pub toxicity_bits: u32,
    /// The direction this toxic is installed on
    pub direction: StreamDirection,
}

impl Clone for Toxic {
    fn clone(&self) -> (r: Self)
        ensures
            r == *self,
    {
        Toxic {
            kind: self.kind,
            name: self.name.clone(),
            toxicity_bits: self.toxicity_bits,
            direction: self.direction,
        }
    }
}

/// Two toxics are the same toxic when they have the same name.
impl PartialEq for Toxic {
    fn eq(&self, other: &Self) -> (r: bool) {
        self.name == other.name
    }
}

impl vstd::std_specs::cmp::PartialEqSpecImpl for Toxic {
    open spec fn obeys_eq_spec() -> bool {
        true
    }

    open spec fn eq_spec(&self, other: &Self) -> bool {
        self.name@ == other.name@
    }
}

/// The inners of a proxy state update event passed to the proxy runner task
#[derive(Debug)]
pub enum ToxicEventKind {
    /// Add a new toxic to a proxy
    AddToxic(Toxic),
    /// Replace a toxic with the same name with this new toxic
    UpdateToxic(Toxic),
    /// Remove a toxic by name
    RemoveToxic(String),
    /// Reset. Remove all toxics
    RemoveAllToxics,
}

/// A proxy state update event passed to the proxy runner task
#[derive(Debug)]
pub struct ToxicEvent {
    /// The name of the proxy the event is for
    pub proxy_name: String,
    /// What to do with the toxics of that proxy
    pub kind: ToxicEventKind,
}

impl ToxicKind {
    /// Whether the toxic must be told when its link is about to close
    pub fn has_close_logic(&self) -> (r: bool)
        ensures
            r == (*self is SlowClose || *self is LimitData),
    {
        match self {
            ToxicKind::SlowClose { .. } | ToxicKind::LimitData { .. } => true,
            _ => false,
        }
    }

    /// Whether the toxic keeps a state that outlives a single link
    pub fn is_stateful(&self) -> (r: bool)
        ensures
            r == (*self is LimitData),
    {
        match self {
            ToxicKind::LimitData { .. } => true,
            _ => false,
        }
    }

    /// The capacity, in chunks, of the channel that feeds this toxic
    pub fn chunk_buffer_capacity(&self) -> (r: usize)
        ensures
            r == (if *self is Latency { 1024usize } else { 1usize }),
    {
        match self {
            ToxicKind::Latency { .. } => 1024,
            _ => 1,
        }
    }
}

impl Toxic {
    /// Get the toxic name
    pub fn get_name(&self) -> (r: &str)
        ensures
            r@ == self.name@,
    {
        self.name.as_str()
    }
}

impl ToxicEvent {
    /// Create a new toxic event
    pub fn new(proxy_name: String, kind: ToxicEventKind) -> (r: Self)
        ensures
            r.proxy_name == proxy_name,
            r.kind == kind,
    {
        ToxicEvent { proxy_name, kind }
    }
}

/// The text of a direction
pub open spec fn direction_text(d: StreamDirection) -> Seq<char> {
    match d {
        StreamDirection::Downstream => "downstream"@,
        StreamDirection::Upstream => "upstream"@,
    }
}

/// The text of a toxic kind: its name and its main attribute
pub open spec fn kind_text(k: ToxicKind) -> Seq<char> {
    match k {
        ToxicKind::Noop => "Noop"@,
        ToxicKind::Latency { latency, .. } => "Latency("@ + decimal(latency as nat) + ")"@,
        ToxicKind::Timeout { timeout } => "Timeout("@ + decimal(timeout as nat) + ")"@,
        ToxicKind::Bandwidth { rate } => "Bandwidth("@ + decimal(rate as nat) + ")"@,
        ToxicKind::SlowClose { delay } => "SlowClose("@ + decimal(delay as nat) + ")"@,
        ToxicKind::Slicer { average_size, .. } => "Slicer("@ + decimal(average_size as nat) + ")"@,
        ToxicKind::LimitData { bytes } => "LimitData("@ + decimal(bytes as nat) + ")"@,
    }
}

impl StreamDirection {
    /// The text of this direction, as its `Display` writes it
    pub fn to_string(&self) -> (r: String)
        ensures
            r@ == direction_text(*self),
    {
        match self {
            StreamDirection::Downstream => "downstream".to_owned(),
            StreamDirection::Upstream => "upstream".to_owned(),
        }
    }
}

/// `name(value)`
fn call_text(name: &str, value: u64) -> (r: String)
    ensures
        r@ == name@ + decimal(value as nat) + ")"@,
{
    let mut s = name.to_owned();
    push_decimal(&mut s, value);
    s.append(")");
    s
}

impl ToxicKind {
    /// The text of this kind, as its `Display` writes it
    pub fn to_string(&self) -> (r: String)
        ensures
            r@ == kind_text(*self),
    {
        match self {
            ToxicKind::Noop => "Noop".to_owned(),
            ToxicKind::Latency { latency, .. } => call_text("Latency(", *latency),
            ToxicKind::Timeout { timeout } => call_text("Timeout(", *timeout),
            ToxicKind::Bandwidth { rate } => call_text("Bandwidth(", *rate),
            ToxicKind::SlowClose { delay } => call_text("SlowClose(", *delay),
            ToxicKind::Slicer { average_size, .. } => call_text("Slicer(", *average_size),
            ToxicKind::LimitData { bytes } => call_text("LimitData(", *bytes),
        }
    }
}

impl Toxic {
    /// The text of this toxic, its name and its kind, as its `Display` writes it
    pub fn to_string(&self) -> (r: String)
        ensures
            r@ == self.name@ + ": "@ + kind_text(self.kind),
    {
        let mut s = self.name.clone();
        s.append(": ");
        let k = self.kind.to_string();
        s.append(k.as_str());
        s
    }
}

/// `s[i]` is a toxic named `n`
pub open spec fn has_name_at(s: Seq<Toxic>, n: Seq<char>, i: int) -> bool {
    0 <= i < s.len() && s[i].name@ == n
}

/// Some toxic of `s` is named `n`
pub open spec fn contains_name(s: Seq<Toxic>, n: Seq<char>) -> bool {
    exists|i: int| has_name_at(s, n, i)
}

/// `s[i]` is the first toxic of `s` named `n`
pub open spec fn first_with_name(s: Seq<Toxic>, n: Seq<char>, i: int) -> bool {
    &&& has_name_at(s, n, i)
    &&& forall|j: int| 0 <= j < i ==> s[j].name@ != n
}

/// The position of the first toxic of `s` named `n` (meaningful when `contains_name(s, n)`)
pub open spec fn name_index(s: Seq<Toxic>, n: Seq<char>) -> int {
    choose|i: int| first_with_name(s, n, i)
}

proof fn lemma_first_below(s: Seq<Toxic>, n: Seq<char>, i: int)
    requires
        has_name_at(s, n, i),
    ensures
        exists|k: int| first_with_name(s, n, k),
    decreases i,
{
    if exists|j: int| 0 <= j < i && s[j].name@ == n {
        let j = choose|j: int| 0 <= j < i && s[j].name@ == n;
        lemma_first_below(s, n, j);
    } else {
        assert(first_with_name(s, n, i));
    }
}

/// When a name occurs, `name_index` is its first occurrence, and that occurrence is unique
pub proof fn lemma_name_index(s: Seq<Toxic>, n: Seq<char>)
    requires
        contains_name(s, n),
    ensures
        first_with_name(s, n, name_index(s, n)),
        forall|k: int| first_with_name(s, n, k) ==> k == name_index(s, n),
{
    let i = choose|i: int| has_name_at(s, n, i);
    lemma_first_below(s, n, i);
    let k = name_index(s, n);
    assert forall|m: int| first_with_name(s, n, m) implies m == k by {
        if m < k {
            assert(s[m].name@ == n);
        } else if k < m {
            assert(s[k].name@ == n);
        }
    }
}

/// The position of the first toxic of `list` named `name`, if any
pub fn position_of_name(list: &Vec<Toxic>, name: &String) -> (r: Option<usize>)
    ensures
        match r {
            Some(i) => first_with_name(list@, name@, i as int) && i as int == name_index(list@, name@),
            None => !contains_name(list@, name@),
        },
{
    let mut i: usize = 0;
    while i < list.len()
        invariant
            0 <= i <= list.len(),
            forall|j: int| 0 <= j < i ==> list@[j].name@ != name@,
        decreases list.len() - i,
    {
        if list[i].name == *name {
            proof {
                assert(has_name_at(list@, name@, i as int));
                lemma_name_index(list@, name@);
            }
            return Some(i);
        }
        i += 1;
    }
    None
}

/// What applying an event to the toxic list of one direction gives: the new list,
/// or `None` when the event does not apply to this list.
pub open spec fn list_update_result(
    list: Seq<Toxic>,
    kind: ToxicEventKind,
    direction: StreamDirection,
) -> Option<Seq<Toxic>> {
    match kind {
        ToxicEventKind::AddToxic(t) => if t.direction == direction {
            Some(list.push(t))
        } else {
            None
        },
        ToxicEventKind::UpdateToxic(t) => if t.direction == direction && contains_name(
            list,
            t.name@,
        ) {
            Some(list.update(name_index(list, t.name@), t))
        } else {
            None
        },
        ToxicEventKind::RemoveToxic(n) => if contains_name(list, n@) {
            Some(list.remove(name_index(list, n@)))
        } else {
            None
        },
        ToxicEventKind::RemoveAllToxics => Some(Seq::empty()),
    }
}

/// Apply a toxic event to the toxics of one direction. When the event does not
/// apply (another direction, or no toxic of that name), the list is left as it
/// is and the event is handed back.
pub fn update_toxic_list_in_place(
    toxics: &mut Vec<Toxic>,
    event_kind: ToxicEventKind,
    direction: StreamDirection,
) -> (r: Result<(), ToxicEventKind>)
    ensures
        match r {
            Ok(()) => list_update_result(old(toxics)@, event_kind, direction) == Some(
                final(toxics)@,
            ),
            Err(k) => {
                &&& k == event_kind
                &&& list_update_result(old(toxics)@, event_kind, direction) is None
                &&& final(toxics)@ == old(toxics)@
            },
        },
{
    match event_kind {
        ToxicEventKind::AddToxic(toxic) => {
            if toxic.direction == direction {
                toxics.push(toxic);
            } else {
                return Err(ToxicEventKind::AddToxic(toxic));
            }
        },
        ToxicEventKind::UpdateToxic(toxic) => {
            let old_toxic = if toxic.direction == direction {
                position_of_name(toxics, &toxic.name)
            } else {
                None
            };
            if let Some(index) = old_toxic {
                toxics.set(index, toxic);
            } else {
                return Err(ToxicEventKind::UpdateToxic(toxic));
            }
        },
        ToxicEventKind::RemoveToxic(toxic_name) => {
            let index = position_of_name(toxics, &toxic_name);
            match index {
                Some(index) => {
                    let _removed = toxics.remove(index);
                },
                None => {
                    return Err(ToxicEventKind::RemoveToxic(toxic_name));
                },
            }
        },
        ToxicEventKind::RemoveAllToxics => {
            toxics.clear();
        },
    }
    Ok(())
}

} // verus!
