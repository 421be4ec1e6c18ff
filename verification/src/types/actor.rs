//! Actor ids, references and timer tokens.

use std::cmp::Ordering;

use vstd::prelude::*;

use crate::text::push_decimal;

verus! {

/// A stable local actor handle with a generation counter.
#[derive(Debug, Clone, Copy, PartialEq, Eq, Structural, Hash, PartialOrd, Ord)]
pub struct ActorId {
    /// The runtime-local slot for the actor.
    pub local_id: u64,
    /// The actor generation for stale-id detection after restarts.
    pub generation: u64,
}

impl ActorId {
    /// Creates a new actor id.
    pub fn new(local_id: u64, generation: u64) -> (id: Self)
        ensures
            id == (ActorId { local_id, generation }),
    {
        ActorId { local_id, generation }
    }

    /// Returns the same local slot with the generation incremented.
    pub fn next_generation(self) -> (id: Self)
        requires
            self.generation < u64::MAX,
        ensures
            id.local_id == self.local_id,
            id.generation == self.generation + 1,
    {
        ActorId { local_id: self.local_id, generation: self.generation + 1 }
    }

    /// The text of an id: slot, a dot, generation.
    pub open spec fn text(self) -> Seq<char> {
        crate::text::decimal(self.local_id as nat) + "."@ + crate::text::decimal(self.generation as nat)
    }

    /// Appends the text of the id.
    pub(crate) fn push_to(self, out: &mut String)
        ensures
            final(out)@ == old(out)@ + self.text(),
    {
        push_decimal(out, self.local_id);
        out.append(".");
        push_decimal(out, self.generation);
        assert(out@ =~= old(out)@ + self.text());
    }

    /// Renders the id as `slot.generation`.
    pub fn to_string(&self) -> (text: String)
        ensures
            text@ == self.text(),
    {
        let mut out = String::new();
        self.push_to(&mut out);
        assert(out@ =~= self.text());
        out
    }

    /// The order of ids: by slot, then by generation.
    pub open spec fn precedes(self, other: ActorId) -> bool {
        self.local_id < other.local_id || (self.local_id == other.local_id && self.generation
            < other.generation)
    }

    /// Tells whether this id comes strictly before another one.
    pub(crate) fn is_before(self, other: ActorId) -> (before: bool)
        ensures
            before == self.precedes(other),
    {
        self.local_id < other.local_id || (self.local_id == other.local_id && self.generation
            < other.generation)
    }
}

/// A runtime-unique reference for monitors, calls, and timers.
#[derive(Debug, Clone, Copy, PartialEq, Eq, Structural, Hash, Ord)]
pub struct Ref {
    value: u64,
}

impl Ref {
    /// The raw integer behind the reference.
    pub closed spec fn spec_get(self) -> u64 {
        self.value
    }

    /// Creates a reference from a raw integer.
    pub fn new(value: u64) -> (reference: Self)
        ensures
            reference.spec_get() == value,
            forall|other: Ref| #[trigger] other.spec_get() == value ==> reference == other,
    {
        Ref { value }
    }

    /// Returns the raw integer value.
    pub fn get(self) -> (value: u64)
        ensures
            value == self.spec_get(),
    {
        self.value
    }

    /// Allocates a fresh reference from the source.
    pub fn next(source: &mut RefSource) -> (reference: Self)
        ensures
            reference.spec_get() == old(source)@,
            final(source)@ == stepped(old(source)@),
    {
        let value: u64 = source.upcoming;
        source.upcoming = value.wrapping_add(1);
        Ref { value }
    }

    /// References with the same raw integer are the same reference.
    pub broadcast proof fn lemma_same_value(self, other: Ref)
        ensures
            #![trigger self.spec_get(), other.spec_get()]
            self.spec_get() == other.spec_get() ==> self == other,
    {
    }
}

/// The order of two raw integers.
pub open spec fn raw_order(left: u64, right: u64) -> Ordering {
    if left < right {
        Ordering::Less
    } else if left == right {
        Ordering::Equal
    } else {
        Ordering::Greater
    }
}

impl PartialOrd for Ref {
    fn partial_cmp(&self, other: &Self) -> (order: Option<Ordering>) {
        if self.value < other.value {
            Some(Ordering::Less)
        } else if self.value == other.value {
            Some(Ordering::Equal)
        } else {
            Some(Ordering::Greater)
        }
    }
}

impl vstd::std_specs::cmp::PartialOrdSpecImpl for Ref {
    open spec fn obeys_partial_cmp_spec() -> bool {
        true
    }

    /// References are ordered as their raw integers are.
    open spec fn partial_cmp_spec(&self, other: &Self) -> Option<Ordering> {
        Some(raw_order(self.spec_get(), other.spec_get()))
    }
}

/// References are the same exactly when their raw integers are, and one comes before another
/// exactly when its raw integer does.
pub proof fn lemma_references_follow_their_values(left: Ref, right: Ref)
    ensures
        left == right <==> left.spec_get() == right.spec_get(),
        vstd::std_specs::cmp::PartialOrdSpec::partial_cmp_spec(&left, &right) == Some(
            Ordering::Less,
        ) <==> left.spec_get() < right.spec_get(),
        vstd::std_specs::cmp::PartialOrdSpec::partial_cmp_spec(&left, &right) == Some(
            Ordering::Equal,
        ) <==> left == right,
{
    left.lemma_same_value(right);
}

/// The counter after one step; it wraps around after 2^64 steps.
pub open spec fn stepped(value: u64) -> u64 {
    if value == u64::MAX {
        0
    } else {
        (value + 1) as u64
    }
}

/// The counter after several steps.
pub open spec fn stepped_by(value: u64, steps: nat) -> u64
    decreases steps,
{
    if steps == 0 {
        value
    } else {
        stepped(stepped_by(value, (steps - 1) as nat))
    }
}

proof fn lemma_stepped_by(value: u64, steps: nat)
    ensures
        stepped_by(value, steps) == (value + steps) % 0x1_0000_0000_0000_0000,
    decreases steps,
{
    if steps > 0 {
        lemma_stepped_by(value, (steps - 1) as nat);
    }
}

/// All references that a source hands out differ, as long as there are no more than 2^64 of them.
pub proof fn lemma_references_differ(start: u64, earlier: nat, later: nat)
    requires
        earlier < later < earlier + 0x1_0000_0000_0000_0000,
    ensures
        stepped_by(start, earlier) != stepped_by(start, later),
{
    lemma_stepped_by(start, earlier);
    lemma_stepped_by(start, later);
}

/// The counter from which a process takes its references.
#[derive(Debug)]
pub struct RefSource {
    upcoming: u64,
}

impl View for RefSource {
    type V = u64;

    /// The raw integer of the next reference.
    closed spec fn view(&self) -> u64 {
        self.upcoming
    }
}

impl RefSource {
    /// Starts a source whose first reference is `1`.
    pub fn new() -> (source: Self)
        ensures
            source@ == 1,
    {
        RefSource { upcoming: 1 }
    }
}

impl Default for RefSource {
    fn default() -> (source: Self)
        ensures
            source@ == 1,
    {
        RefSource::new()
    }
}

/// A timer handle used to correlate fired and cancelled timers.
#[derive(Debug, Clone, Copy, PartialEq, Eq, Structural, Hash, Ord)]
pub struct TimerToken {
    reference: Ref,
}

impl TimerToken {
    /// The reference behind the token.
    pub closed spec fn spec_ref(self) -> Ref {
        self.reference
    }

    /// Creates a timer token from a reference.
    pub fn from_ref(reference: Ref) -> (token: Self)
        ensures
            token.spec_ref() == reference,
    {
        TimerToken { reference }
    }

    /// Returns the underlying reference.
    pub fn as_ref(self) -> (reference: Ref)
        ensures
            reference == self.spec_ref(),
    {
        self.reference
    }

    /// Allocates a fresh timer token from the source.
    pub fn next(source: &mut RefSource) -> (token: Self)
        ensures
            token.spec_ref().spec_get() == old(source)@,
            final(source)@ == stepped(old(source)@),
    {
        TimerToken { reference: Ref::next(source) }
    }

    /// Tokens with the same reference are the same token.
    pub proof fn lemma_same_ref(self, other: TimerToken)
        ensures
            self.spec_ref() == other.spec_ref() ==> self == other,
    {
    }
}

impl PartialOrd for TimerToken {
    fn partial_cmp(&self, other: &Self) -> (order: Option<Ordering>) {
        self.reference.partial_cmp(&other.reference)
    }
}

impl vstd::std_specs::cmp::PartialOrdSpecImpl for TimerToken {
    open spec fn obeys_partial_cmp_spec() -> bool {
        true
    }

    /// Tokens are ordered as their references are.
    open spec fn partial_cmp_spec(&self, other: &Self) -> Option<Ordering> {
        Some(raw_order(self.spec_ref().spec_get(), other.spec_ref().spec_get()))
    }
}

/// Tokens are the same exactly when their references are, and one comes before another exactly
/// when its reference does.
pub proof fn lemma_tokens_follow_their_references(left: TimerToken, right: TimerToken)
    ensures
        left == right <==> left.spec_ref() == right.spec_ref(),
        vstd::std_specs::cmp::PartialOrdSpec::partial_cmp_spec(&left, &right)
            == vstd::std_specs::cmp::PartialOrdSpec::partial_cmp_spec(
            &left.spec_ref(),
            &right.spec_ref(),
        ),
{
    left.lemma_same_ref(right);
}

/// Ids are in a strict order, by slot and then by generation.
pub proof fn lemma_ids_are_ordered(left: ActorId, right: ActorId, third: ActorId)
    ensures
        !left.precedes(left),
        left.precedes(right) ==> !right.precedes(left),
        left.precedes(right) && right.precedes(third) ==> left.precedes(third),
        left == right || left.precedes(right) || right.precedes(left),
        left.local_id < right.local_id ==> left.precedes(right),
        left.local_id == right.local_id && left.generation < right.generation ==> left.precedes(
            right,
        ),
{
}

/// A counter of references goes up by one until it starts again at zero.
pub proof fn lemma_references_count_up(value: u64)
    ensures
        value < u64::MAX ==> stepped(value) == value + 1,
        stepped(u64::MAX) == 0,
{
}

} // verus!
