//! Ordered sets of actors, ordered maps of references, and small maps.

use vstd::prelude::*;

use crate::text::same_text;
use crate::types::{ActorId, Ref};

verus! {

/// Whether ids stand in strictly ascending order.
pub open spec fn is_ascending(ids: Seq<ActorId>) -> bool {
    forall|i: int, j: int|
        0 <= i < j < ids.len() ==> (#[trigger] ids[i]).precedes(#[trigger] ids[j])
}

/// Whether a sequence lists a set in ascending order.
pub open spec fn lists(ids: Seq<ActorId>, set: Set<ActorId>) -> bool {
    &&& is_ascending(ids)
    &&& forall|id: ActorId| #[trigger] set.contains(id) <==> ids.contains(id)
}

/// The members of a set in ascending order.
pub open spec fn ascending(set: Set<ActorId>) -> Seq<ActorId> {
    choose|ids: Seq<ActorId>| lists(ids, set)
}

/// A set is listed in ascending order in one way only.
pub proof fn lemma_ascending_unique(left: Seq<ActorId>, right: Seq<ActorId>, set: Set<ActorId>)
    requires
        lists(left, set),
        lists(right, set),
    ensures
        left == right,
    decreases left.len(),
{
    if left.len() == 0 {
        if right.len() > 0 {
            assert(right.contains(right[0]));
            assert(set.contains(right[0]));
        }
        assert(left =~= right);
    } else {
        assert(left.contains(left.last()));
        assert(set.contains(left.last()));
        assert(right.len() > 0);
        assert(right.contains(right.last()));
        assert(set.contains(right.last()));
        let i = choose|i: int| 0 <= i < right.len() && right[i] == left.last();
        let j = choose|j: int| 0 <= j < left.len() && left[j] == right.last();
        assert(left.last() == right.last()) by {
            if i < right.len() - 1 {
                assert(right[i].precedes(right[right.len() - 1]));
            }
            if j < left.len() - 1 {
                assert(left[j].precedes(left[left.len() - 1]));
            }
        }
        let last = left.last();
        let smaller = set.remove(last);
        lemma_lists_front(left, set);
        lemma_lists_front(right, set);
        lemma_ascending_unique(left.drop_last(), right.drop_last(), smaller);
        assert(left =~= left.drop_last().push(last));
        assert(right =~= right.drop_last().push(last));
    }
}

proof fn lemma_lists_front(ids: Seq<ActorId>, set: Set<ActorId>)
    requires
        lists(ids, set),
        ids.len() > 0,
    ensures
        lists(ids.drop_last(), set.remove(ids.last())),
{
    let front = ids.drop_last();
    assert forall|id: ActorId| #[trigger]
        set.remove(ids.last()).contains(id) <==> front.contains(id) by {
        if set.remove(ids.last()).contains(id) {
            assert(ids.contains(id));
            let i = choose|i: int| 0 <= i < ids.len() && ids[i] == id;
            assert(front[i] == id);
        }
        if front.contains(id) {
            let i = choose|i: int| 0 <= i < front.len() && front[i] == id;
            assert(ids[i] == id);
            assert(ids[i].precedes(ids[ids.len() - 1]));
            assert(ids.contains(id));
        }
    }
}

/// A set of actors, walked in ascending order.
#[derive(Debug)]
pub struct ActorSet {
    ids: Vec<ActorId>,
}

impl View for ActorSet {
    type V = Set<ActorId>;

    /// The members of the set.
    closed spec fn view(&self) -> Set<ActorId> {
        self.ids@.to_set()
    }
}

impl ActorSet {
    #[verifier::type_invariant]
    spec fn ids_ok(self) -> bool {
        is_ascending(self.ids@)
    }

    /// Creates an empty set.
    pub fn new() -> (set: Self)
        ensures
            set@ == Set::<ActorId>::empty(),
    {
        let set = ActorSet { ids: Vec::new() };
        assert(set@ =~= Set::<ActorId>::empty());
        set
    }

    /// Tells whether the actor is in the set.
    pub fn contains(&self, actor: ActorId) -> (found: bool)
        ensures
            found == self@.contains(actor),
    {
        let mut at: usize = 0;
        while at < self.ids.len()
            invariant
                at <= self.ids@.len(),
                forall|i: int| 0 <= i < at ==> self.ids@[i] != actor,
            decreases self.ids@.len() - at,
        {
            if self.ids[at] == actor {
                assert(self.ids@.contains(actor));
                return true;
            }
            at = at + 1;
        }
        false
    }

    /// Adds an actor and tells whether it is new to the set.
    pub fn insert(&mut self, actor: ActorId) -> (added: bool)
        ensures
            final(self)@ == old(self)@.insert(actor),
            added == !old(self)@.contains(actor),
    {
        proof {
            use_type_invariant(&*self);
        }
        let mut ids: Vec<ActorId> = Vec::new();
        std::mem::swap(&mut self.ids, &mut ids);
        let ghost before = ids@;
        let mut at: usize = 0;
        while at < ids.len() && ids[at].is_before(actor)
            invariant
                ids@ == before,
                is_ascending(before),
                at <= ids@.len(),
                forall|i: int| 0 <= i < at ==> (#[trigger] before[i]).precedes(actor),
            decreases ids@.len() - at,
        {
            at = at + 1;
        }
        if at < ids.len() && ids[at] == actor {
            proof {
                assert(before.contains(actor));
                assert(before.to_set() =~= before.to_set().insert(actor));
            }
            self.ids = ids;
            return false;
        }
        ids.insert(at, actor);
        proof {
            assert forall|i: int| at <= i < before.len() implies actor.precedes(
                #[trigger] before[i],
            ) by {
                if i > at {
                    assert(before[at as int].precedes(before[i]));
                }
            }
            assert(is_ascending(ids@));
            assert(!before.contains(actor));
            lemma_inserted(before, at as int, actor);
        }
        self.ids = ids;
        true
    }

    /// Removes an actor and tells whether it was in the set.
    pub fn remove(&mut self, actor: ActorId) -> (removed: bool)
        ensures
            final(self)@ == old(self)@.remove(actor),
            removed == old(self)@.contains(actor),
    {
        proof {
            use_type_invariant(&*self);
        }
        let mut ids: Vec<ActorId> = Vec::new();
        std::mem::swap(&mut self.ids, &mut ids);
        let ghost before = ids@;
        let mut at: usize = 0;
        while at < ids.len()
            invariant
                ids@ == before,
                is_ascending(before),
                is_ascending(self.ids@),
                before == old(self).ids@,
                at <= ids@.len(),
                forall|i: int| 0 <= i < at ==> (#[trigger] before[i]) != actor,
            decreases ids@.len() - at,
        {
            if ids[at] == actor {
                ids.remove(at);
                proof {
                    assert(before.contains(actor));
                    lemma_taken(before, at as int);
                }
                self.ids = ids;
                return true;
            }
            at = at + 1;
        }
        proof {
            assert(!before.contains(actor));
            assert(before.to_set() =~= before.to_set().remove(actor));
        }
        self.ids = ids;
        false
    }

    /// Removes every actor.
    pub fn clear(&mut self)
        ensures
            final(self)@ == Set::<ActorId>::empty(),
    {
        self.ids = Vec::new();
        assert(self@ =~= Set::<ActorId>::empty());
    }

    /// Lists the actors in ascending order.
    pub fn to_vec(&self) -> (ids: Vec<ActorId>)
        ensures
            ids@ == ascending(self@),
            lists(ids@, self@),
    {
        proof {
            use_type_invariant(&*self);
        }
        let ids = self.ids.clone();
        proof {
            assert(ids@ =~= self.ids@);
            assert(lists(ids@, self@)) by {
                assert forall|id: ActorId| #[trigger] self@.contains(id) <==> ids@.contains(
                    id,
                ) by {}
            }
            lemma_ascending_unique(ids@, ascending(self@), self@);
        }
        ids
    }
}

proof fn lemma_inserted(before: Seq<ActorId>, at: int, actor: ActorId)
    requires
        0 <= at <= before.len(),
    ensures
        before.insert(at, actor).to_set() == before.to_set().insert(actor),
{
    let after = before.insert(at, actor);
    assert forall|id: ActorId| #[trigger]
        after.to_set().contains(id) == before.to_set().insert(actor).contains(id) by {
        if after.contains(id) {
            let i = choose|i: int| 0 <= i < after.len() && after[i] == id;
            if i < at {
                assert(before[i] == id);
            } else if i > at {
                assert(before[i - 1] == id);
            }
        }
        if before.contains(id) {
            let i = choose|i: int| 0 <= i < before.len() && before[i] == id;
            if i < at {
                assert(after[i] == id);
            } else {
                assert(after[i + 1] == id);
            }
        }
        assert(after[at] == actor);
    }
    assert(after.to_set() =~= before.to_set().insert(actor));
}

proof fn lemma_taken(before: Seq<ActorId>, at: int)
    requires
        is_ascending(before),
        0 <= at < before.len(),
    ensures
        is_ascending(before.remove(at)),
        before.remove(at).to_set() == before.to_set().remove(before[at]),
{
    let after = before.remove(at);
    assert forall|i: int| 0 <= i < after.len() implies #[trigger] after[i] == before[if i < at {
        i
    } else {
        i + 1
    }] by {}
    assert forall|id: ActorId| #[trigger]
        after.to_set().contains(id) == before.to_set().remove(before[at]).contains(id) by {
        if after.contains(id) {
            let i = choose|i: int| 0 <= i < after.len() && after[i] == id;
            if i < at {
                assert(before[i] == id);
                assert(before[i].precedes(before[at]));
            } else {
                assert(before[i + 1] == id);
                assert(before[at].precedes(before[i + 1]));
            }
        }
        if before.contains(id) && id != before[at] {
            let i = choose|i: int| 0 <= i < before.len() && before[i] == id;
            if i < at {
                assert(after[i] == id);
            } else {
                assert(after[i - 1] == id);
            }
        }
    }
    assert(after.to_set() =~= before.to_set().remove(before[at]));
}

/// Whether pairs stand in strictly ascending order of their references.
pub open spec fn refs_ascending(pairs: Seq<(Ref, ActorId)>) -> bool {
    forall|i: int, j: int|
        0 <= i < j < pairs.len() ==> (#[trigger] pairs[i]).0.spec_get() < (
        #[trigger] pairs[j]).0.spec_get()
}

/// Whether a sequence of pairs lists a map in ascending order of its references.
pub open spec fn lists_map(pairs: Seq<(Ref, ActorId)>, map: Map<Ref, ActorId>) -> bool {
    &&& refs_ascending(pairs)
    &&& forall|i: int|
        0 <= i < pairs.len() ==> map.contains_key((#[trigger] pairs[i]).0) && map[pairs[i].0]
            == pairs[i].1
    &&& forall|reference: Ref| #[trigger]
        map.contains_key(reference) ==> pairs.contains((reference, map[reference]))
}

/// The pairs of a map in ascending order of their references.
pub open spec fn ascending_pairs(map: Map<Ref, ActorId>) -> Seq<(Ref, ActorId)> {
    choose|pairs: Seq<(Ref, ActorId)>| lists_map(pairs, map)
}

/// Where an id has its place in an ascending sequence.
proof fn lemma_place_of_id(ids: Seq<ActorId>, id: ActorId) -> (at: int)
    requires
        is_ascending(ids),
        !ids.contains(id),
    ensures
        0 <= at <= ids.len(),
        forall|i: int| 0 <= i < at ==> (#[trigger] ids[i]).precedes(id),
        forall|i: int| at <= i < ids.len() ==> id.precedes(#[trigger] ids[i]),
    decreases ids.len(),
{
    if ids.len() == 0 {
        0
    } else {
        let front = ids.drop_last();
        assert forall|i: int| 0 <= i < front.len() implies ids.contains(#[trigger] front[i]) by {
            assert(ids[i] == front[i]);
        }
        let last = ids[ids.len() - 1];
        assert(ids.contains(last));
        if last.precedes(id) {
            assert forall|i: int| 0 <= i < ids.len() implies (#[trigger] ids[i]).precedes(id) by {
                if i < ids.len() - 1 {
                    assert(ids[i].precedes(ids[ids.len() - 1]));
                }
            }
            ids.len() as int
        } else {
            let at = lemma_place_of_id(front, id);
            assert forall|i: int| 0 <= i < at implies (#[trigger] ids[i]).precedes(id) by {
                assert(front[i] == ids[i]);
            }
            assert forall|i: int| at <= i < ids.len() implies id.precedes(#[trigger] ids[i]) by {
                if i < ids.len() - 1 {
                    assert(front[i] == ids[i]);
                }
            }
            at
        }
    }
}

/// A finite set can be listed in ascending order.
pub proof fn lemma_finite_set_is_listed(set: Set<ActorId>)
    requires
        set.finite(),
    ensures
        lists(ascending(set), set),
    decreases set.len(),
{
    if set.len() == 0 {
        assert(set =~= Set::<ActorId>::empty());
        assert(lists(Seq::<ActorId>::empty(), set));
    } else {
        let id = set.choose();
        let others = set.remove(id);
        lemma_finite_set_is_listed(others);
        let ids = ascending(others);
        assert(!others.contains(id));
        let at = lemma_place_of_id(ids, id);
        let all = ids.insert(at, id);
        assert forall|i: int| 0 <= i < all.len() implies #[trigger] all[i] == (if i < at {
            ids[i]
        } else if i == at {
            id
        } else {
            ids[i - 1]
        }) by {}
        assert(is_ascending(all));
        assert forall|other: ActorId| #[trigger] set.contains(other) <==> all.contains(other) by {
            if set.contains(other) && other != id {
                assert(others.contains(other));
                let i = choose|i: int| 0 <= i < ids.len() && ids[i] == other;
                assert(all[if i < at {
                    i
                } else {
                    i + 1
                }] == other);
            }
            if other == id {
                assert(all[at] == id);
            }
            if all.contains(other) && other != id {
                let i = choose|i: int| 0 <= i < all.len() && all[i] == other;
                assert(ids.contains(other)) by {
                    assert(ids[if i < at {
                        i
                    } else {
                        i - 1
                    }] == other);
                }
                assert(others.contains(other));
            }
        }
        assert(lists(all, set));
    }
}

/// Where a reference has its place in an ascending sequence of pairs.
proof fn lemma_place_of_ref(pairs: Seq<(Ref, ActorId)>, reference: Ref) -> (at: int)
    requires
        refs_ascending(pairs),
        forall|i: int| 0 <= i < pairs.len() ==> (#[trigger] pairs[i]).0 != reference,
    ensures
        0 <= at <= pairs.len(),
        forall|i: int|
            0 <= i < at ==> (#[trigger] pairs[i]).0.spec_get() < reference.spec_get(),
        forall|i: int|
            at <= i < pairs.len() ==> reference.spec_get() < (#[trigger] pairs[i]).0.spec_get(),
    decreases pairs.len(),
{
    broadcast use Ref::lemma_same_value;

    if pairs.len() == 0 {
        0
    } else {
        let front = pairs.drop_last();
        let last = pairs[pairs.len() - 1];
        if last.0.spec_get() < reference.spec_get() {
            assert forall|i: int| 0 <= i < pairs.len() implies (#[trigger] pairs[i]).0.spec_get()
                < reference.spec_get() by {
                if i < pairs.len() - 1 {
                    assert(pairs[i].0.spec_get() < pairs[pairs.len() - 1].0.spec_get());
                }
            }
            pairs.len() as int
        } else {
            assert forall|i: int| 0 <= i < front.len() implies (#[trigger] front[i]).0
                != reference by {
                assert(pairs[i] == front[i]);
            }
            let at = lemma_place_of_ref(front, reference);
            assert forall|i: int| 0 <= i < at implies (#[trigger] pairs[i]).0.spec_get()
                < reference.spec_get() by {
                assert(front[i] == pairs[i]);
            }
            assert forall|i: int| at <= i < pairs.len() implies reference.spec_get() < (
            #[trigger] pairs[i]).0.spec_get() by {
                if i < pairs.len() - 1 {
                    assert(front[i] == pairs[i]);
                }
            }
            at
        }
    }
}

/// A finite map can be listed in ascending order.
pub proof fn lemma_finite_map_is_listed(map: Map<Ref, ActorId>)
    requires
        map.dom().finite(),
    ensures
        lists_map(ascending_pairs(map), map),
    decreases map.dom().len(),
{
    if map.dom().len() == 0 {
        assert(map.dom() =~= Set::<Ref>::empty());
        assert(lists_map(Seq::<(Ref, ActorId)>::empty(), map));
    } else {
        let reference = map.dom().choose();
        let others = map.remove(reference);
        lemma_finite_map_is_listed(others);
        let pairs = ascending_pairs(others);
        let at = lemma_place_of_ref(pairs, reference);
        let entry = (reference, map[reference]);
        let all = pairs.insert(at, entry);
        assert forall|i: int| 0 <= i < all.len() implies #[trigger] all[i] == (if i < at {
            pairs[i]
        } else if i == at {
            entry
        } else {
            pairs[i - 1]
        }) by {}
        assert(refs_ascending(all));
        assert forall|other: Ref| #[trigger] map.contains_key(other) implies all.contains(
            (other, map[other]),
        ) by {
            if other == reference {
                assert(all[at] == entry);
            } else {
                assert(others.contains_key(other));
                let i = choose|i: int|
                    0 <= i < pairs.len() && pairs[i] == (other, others[other]);
                assert(all[if i < at {
                    i
                } else {
                    i + 1
                }] == (other, map[other]));
            }
        }
        assert(lists_map(all, map));
    }
}

/// A map is listed in ascending order in one way only.
pub proof fn lemma_pairs_unique(
    left: Seq<(Ref, ActorId)>,
    right: Seq<(Ref, ActorId)>,
    map: Map<Ref, ActorId>,
)
    requires
        lists_map(left, map),
        lists_map(right, map),
    ensures
        left == right,
    decreases left.len(),
{
    if left.len() == 0 {
        if right.len() > 0 {
            assert(map.contains_key(right[0].0));
            assert(left.contains((right[0].0, map[right[0].0])));
        }
        assert(left =~= right);
    } else {
        let l = left[left.len() - 1];
        assert(map.contains_key(l.0));
        assert(right.contains((l.0, map[l.0])));
        let i = choose|i: int| 0 <= i < right.len() && right[i] == (l.0, map[l.0]);
        let r = right[right.len() - 1];
        assert(map.contains_key(r.0));
        assert(left.contains((r.0, map[r.0])));
        let j = choose|j: int| 0 <= j < left.len() && left[j] == (r.0, map[r.0]);
        assert(l == r) by {
            if i < right.len() - 1 {
                assert(right[i].0.spec_get() < right[right.len() - 1].0.spec_get());
            }
            if j < left.len() - 1 {
                assert(left[j].0.spec_get() < left[left.len() - 1].0.spec_get());
            }
        }
        lemma_lists_map_front(left, map);
        lemma_lists_map_front(right, map);
        lemma_pairs_unique(left.drop_last(), right.drop_last(), map.remove(l.0));
        assert(left =~= left.drop_last().push(l));
        assert(right =~= right.drop_last().push(l));
    }
}

proof fn lemma_lists_map_front(pairs: Seq<(Ref, ActorId)>, map: Map<Ref, ActorId>)
    requires
        lists_map(pairs, map),
        pairs.len() > 0,
    ensures
        lists_map(pairs.drop_last(), map.remove(pairs.last().0)),
{
    let front = pairs.drop_last();
    let last = pairs[pairs.len() - 1];
    let fewer = map.remove(last.0);
    assert forall|i: int| 0 <= i < front.len() implies fewer.contains_key((#[trigger] front[i]).0)
        && fewer[front[i].0] == front[i].1 by {
        assert(front[i] == pairs[i]);
        assert(pairs[i].0.spec_get() < pairs[pairs.len() - 1].0.spec_get());
    }
    assert forall|reference: Ref| #[trigger] fewer.contains_key(reference) implies front.contains(
        (reference, fewer[reference]),
    ) by {
        assert(map.contains_key(reference));
        assert(pairs.contains((reference, map[reference])));
        let i = choose|i: int|
            0 <= i < pairs.len() && pairs[i] == (reference, map[reference]);
        assert(front[i] == (reference, map[reference]));
    }
}

/// A map from references to actors, walked in ascending order of the references.
#[derive(Debug)]
pub struct RefMap {
    pairs: Vec<(Ref, ActorId)>,
}

/// The place of a reference among pairs.
spec fn place_of(pairs: Seq<(Ref, ActorId)>, reference: Ref) -> int {
    choose|i: int| 0 <= i < pairs.len() && (#[trigger] pairs[i]).0 == reference
}

/// Whether a reference occurs among pairs.
spec fn has_ref(pairs: Seq<(Ref, ActorId)>, reference: Ref) -> bool {
    exists|i: int| 0 <= i < pairs.len() && (#[trigger] pairs[i]).0 == reference
}

/// Pairs as a map.
spec fn pairs_map(pairs: Seq<(Ref, ActorId)>) -> Map<Ref, ActorId> {
    Map::new(
        |reference: Ref| has_ref(pairs, reference),
        |reference: Ref| pairs[place_of(pairs, reference)].1,
    )
}

proof fn lemma_pair(pairs: Seq<(Ref, ActorId)>, i: int)
    requires
        refs_ascending(pairs),
        0 <= i < pairs.len(),
    ensures
        pairs_map(pairs).contains_key(pairs[i].0),
        pairs_map(pairs)[pairs[i].0] == pairs[i].1,
{
    assert(has_ref(pairs, pairs[i].0));
    let place = place_of(pairs, pairs[i].0);
    if place < i {
        assert(pairs[place].0.spec_get() < pairs[i].0.spec_get());
    } else if place > i {
        assert(pairs[i].0.spec_get() < pairs[place].0.spec_get());
    }
}

impl View for RefMap {
    type V = Map<Ref, ActorId>;

    /// The references with their actors.
    closed spec fn view(&self) -> Map<Ref, ActorId> {
        pairs_map(self.pairs@)
    }
}

impl RefMap {
    #[verifier::type_invariant]
    spec fn pairs_ok(self) -> bool {
        refs_ascending(self.pairs@)
    }

    /// Creates an empty map.
    pub fn new() -> (map: Self)
        ensures
            map@ == Map::<Ref, ActorId>::empty(),
    {
        let map = RefMap { pairs: Vec::new() };
        assert(map@ =~= Map::<Ref, ActorId>::empty());
        map
    }

    /// Maps a reference to an actor, in place of what it was mapped to before.
    pub fn insert(&mut self, reference: Ref, actor: ActorId)
        ensures
            final(self)@ == old(self)@.insert(reference, actor),
    {
        proof {
            use_type_invariant(&*self);
        }
        let mut pairs: Vec<(Ref, ActorId)> = Vec::new();
        std::mem::swap(&mut self.pairs, &mut pairs);
        let ghost before = pairs@;
        let mut at: usize = 0;
        while at < pairs.len() && pairs[at].0.get() < reference.get()
            invariant
                pairs@ == before,
                refs_ascending(before),
                at <= pairs@.len(),
                forall|i: int|
                    0 <= i < at ==> (#[trigger] before[i]).0.spec_get() < reference.spec_get(),
            decreases pairs@.len() - at,
        {
            at = at + 1;
        }
        if at < pairs.len() && pairs[at].0.get() == reference.get() {
            proof {
                before[at as int].0.lemma_same_value(reference);
            }
            pairs.set(at, (reference, actor));
            proof {
                lemma_replaced(before, at as int, actor);
                assert(pairs@ =~= before.update(at as int, (before[at as int].0, actor)));
            }
            self.pairs = pairs;
            return;
        }
        pairs.insert(at, (reference, actor));
        proof {
            assert forall|i: int| at <= i < before.len() implies reference.spec_get() < (
            #[trigger] before[i]).0.spec_get() by {
                if i > at {
                    assert(before[at as int].0.spec_get() < before[i].0.spec_get());
                }
            }
            assert(refs_ascending(pairs@));
            lemma_added(before, at as int, reference, actor);
        }
        self.pairs = pairs;
    }

    /// Removes a reference and returns the actor that it was mapped to.
    pub fn remove(&mut self, reference: Ref) -> (removed: Option<ActorId>)
        ensures
            final(self)@ == old(self)@.remove(reference),
            removed == (if old(self)@.contains_key(reference) {
                Some(old(self)@[reference])
            } else {
                None
            }),
    {
        proof {
            use_type_invariant(&*self);
        }
        let mut pairs: Vec<(Ref, ActorId)> = Vec::new();
        std::mem::swap(&mut self.pairs, &mut pairs);
        let ghost before = pairs@;
        let mut at: usize = 0;
        while at < pairs.len()
            invariant
                pairs@ == before,
                refs_ascending(before),
                refs_ascending(self.pairs@),
                before == old(self).pairs@,
                at <= pairs@.len(),
                forall|i: int| 0 <= i < at ==> (#[trigger] before[i]).0 != reference,
            decreases pairs@.len() - at,
        {
            if pairs[at].0 == reference {
                proof {
                    lemma_pair(before, at as int);
                    lemma_dropped(before, at as int);
                }
                let pair = pairs.remove(at);
                self.pairs = pairs;
                return Some(pair.1);
            }
            at = at + 1;
        }
        proof {
            assert(!has_ref(before, reference));
            assert(pairs_map(before) =~= pairs_map(before).remove(reference));
        }
        self.pairs = pairs;
        None
    }

    /// Removes every reference.
    pub fn clear(&mut self)
        ensures
            final(self)@ == Map::<Ref, ActorId>::empty(),
    {
        self.pairs = Vec::new();
        assert(self@ =~= Map::<Ref, ActorId>::empty());
    }

    /// Lists the pairs in ascending order of the references.
    pub fn to_vec(&self) -> (pairs: Vec<(Ref, ActorId)>)
        ensures
            pairs@ == ascending_pairs(self@),
            lists_map(pairs@, self@),
    {
        proof {
            use_type_invariant(&*self);
        }
        let mut pairs: Vec<(Ref, ActorId)> = Vec::new();
        let mut at: usize = 0;
        while at < self.pairs.len()
            invariant
                at <= self.pairs@.len(),
                pairs@ == self.pairs@.subrange(0, at as int),
            decreases self.pairs@.len() - at,
        {
            pairs.push(self.pairs[at]);
            at = at + 1;
            assert(pairs@ =~= self.pairs@.subrange(0, at as int));
        }
        proof {
            assert(pairs@ =~= self.pairs@);
            assert(lists_map(pairs@, self@)) by {
                assert forall|i: int| 0 <= i < pairs@.len() implies self@.contains_key(
                    (#[trigger] pairs@[i]).0,
                ) && self@[pairs@[i].0] == pairs@[i].1 by {
                    lemma_pair(self.pairs@, i);
                }
                assert forall|reference: Ref| #[trigger]
                    self@.contains_key(reference) implies pairs@.contains(
                    (reference, self@[reference]),
                ) by {
                    let i = place_of(self.pairs@, reference);
                    assert(pairs@[i] == (reference, self@[reference]));
                }
            }
            lemma_pairs_unique(pairs@, ascending_pairs(self@), self@);
        }
        pairs
    }
}

proof fn lemma_replaced(before: Seq<(Ref, ActorId)>, at: int, actor: ActorId)
    requires
        refs_ascending(before),
        0 <= at < before.len(),
    ensures
        refs_ascending(before.update(at, (before[at].0, actor))),
        pairs_map(before.update(at, (before[at].0, actor))) == pairs_map(before).insert(
            before[at].0,
            actor,
        ),
{
    let after = before.update(at, (before[at].0, actor));
    assert(refs_ascending(after));
    let expected = pairs_map(before).insert(before[at].0, actor);
    assert forall|reference: Ref| #[trigger]
        pairs_map(after).contains_key(reference) == expected.contains_key(reference) by {
        if has_ref(before, reference) {
            let i = place_of(before, reference);
            assert(after[i].0 == reference);
        }
        if has_ref(after, reference) {
            let i = place_of(after, reference);
            assert(before[i].0 == reference);
        }
        if reference == before[at].0 {
            assert(after[at].0 == reference);
        }
    }
    assert forall|reference: Ref| pairs_map(after).contains_key(reference) implies #[trigger] pairs_map(
        after,
    )[reference] == expected[reference] by {
        let i = place_of(after, reference);
        lemma_pair(after, i);
        lemma_pair(before, i);
        lemma_pair(before, at);
        if i < at {
            assert(before[i].0.spec_get() < before[at].0.spec_get());
        } else if i > at {
            assert(before[at].0.spec_get() < before[i].0.spec_get());
        }
    }
    assert(pairs_map(after) =~= expected);
}

proof fn lemma_added(before: Seq<(Ref, ActorId)>, at: int, reference: Ref, actor: ActorId)
    requires
        refs_ascending(before),
        0 <= at <= before.len(),
        refs_ascending(before.insert(at, (reference, actor))),
    ensures
        pairs_map(before.insert(at, (reference, actor))) == pairs_map(before).insert(
            reference,
            actor,
        ),
{
    let after = before.insert(at, (reference, actor));
    let expected = pairs_map(before).insert(reference, actor);
    assert(after[at] == (reference, actor));
    assert forall|i: int| 0 <= i < before.len() implies #[trigger] before[i] == after[if i < at {
        i
    } else {
        i + 1
    }] by {}
    assert forall|other: Ref| #[trigger]
        pairs_map(after).contains_key(other) == expected.contains_key(other) by {
        if has_ref(before, other) {
            let i = place_of(before, other);
            let k = if i < at {
                i
            } else {
                i + 1
            };
            assert(after[k].0 == other);
        }
        if has_ref(after, other) {
            let k = place_of(after, other);
            if k < at {
                assert(before[k].0 == other);
            } else if k > at {
                assert(before[k - 1].0 == other);
            }
        }
    }
    assert forall|other: Ref| pairs_map(after).contains_key(other) implies #[trigger] pairs_map(
        after,
    )[other] == expected[other] by {
        let k = place_of(after, other);
        lemma_pair(after, k);
        lemma_pair(after, at);
        if k < at {
            assert(after[k].0.spec_get() < after[at].0.spec_get());
            lemma_pair(before, k);
        } else if k > at {
            assert(after[at].0.spec_get() < after[k].0.spec_get());
            lemma_pair(before, k - 1);
        }
    }
    assert(pairs_map(after) =~= expected);
}

proof fn lemma_dropped(before: Seq<(Ref, ActorId)>, at: int)
    requires
        refs_ascending(before),
        0 <= at < before.len(),
    ensures
        refs_ascending(before.remove(at)),
        pairs_map(before.remove(at)) == pairs_map(before).remove(before[at].0),
{
    let after = before.remove(at);
    let expected = pairs_map(before).remove(before[at].0);
    assert forall|i: int| 0 <= i < after.len() implies #[trigger] after[i] == before[if i < at {
        i
    } else {
        i + 1
    }] by {}
    assert(refs_ascending(after));
    assert forall|other: Ref| #[trigger]
        pairs_map(after).contains_key(other) == expected.contains_key(other) by {
        if has_ref(before, other) && other != before[at].0 {
            let i = place_of(before, other);
            let k = if i < at {
                i
            } else {
                i - 1
            };
            assert(after[k].0 == other);
        }
        if has_ref(after, other) {
            let k = place_of(after, other);
            if k < at {
                assert(before[k].0 == other);
                assert(before[k].0.spec_get() < before[at].0.spec_get());
            } else {
                assert(before[k + 1].0 == other);
                assert(before[at].0.spec_get() < before[k + 1].0.spec_get());
            }
        }
    }
    assert forall|other: Ref| pairs_map(after).contains_key(other) implies #[trigger] pairs_map(
        after,
    )[other] == expected[other] by {
        let k = place_of(after, other);
        lemma_pair(after, k);
        if k < at {
            lemma_pair(before, k);
        } else {
            lemma_pair(before, k + 1);
        }
    }
    assert(pairs_map(after) =~= expected);
}

/// A key of an [`AssocMap`]: a small value compared by what it stands for.
pub trait AssocKey: Copy {
    /// What the key stands for.
    type Model;

    /// What this key stands for.
    spec fn model(self) -> Self::Model;

    /// Tells whether two keys stand for the same thing.
    fn same(self, other: Self) -> (same: bool)
        ensures
            same == (self.model() == other.model()),
    ;
}

impl AssocKey for &'static str {
    type Model = Seq<char>;

    open spec fn model(self) -> Seq<char> {
        self@
    }

    fn same(self, other: Self) -> (same: bool) {
        same_text(self, other)
    }
}

impl AssocKey for ActorId {
    type Model = ActorId;

    open spec fn model(self) -> ActorId {
        self
    }

    fn same(self, other: Self) -> (same: bool) {
        self == other
    }
}

/// A small map, looked up by walking its entries.
#[derive(Debug)]
pub struct AssocMap<K: AssocKey, V: Copy> {
    entries: Vec<(K, V)>,
}

/// Whether no key occurs twice.
spec fn keys_distinct<K: AssocKey, V>(entries: Seq<(K, V)>) -> bool {
    forall|i: int, j: int|
        0 <= i < j < entries.len() ==> (#[trigger] entries[i]).0.model() != (
        #[trigger] entries[j]).0.model()
}

/// Whether a key occurs among the entries.
spec fn has_key<K: AssocKey, V>(entries: Seq<(K, V)>, key: K::Model) -> bool {
    exists|i: int| 0 <= i < entries.len() && (#[trigger] entries[i]).0.model() == key
}

/// The place of a key among the entries.
spec fn key_place<K: AssocKey, V>(entries: Seq<(K, V)>, key: K::Model) -> int {
    choose|i: int| 0 <= i < entries.len() && (#[trigger] entries[i]).0.model() == key
}

/// The entries as a map.
spec fn entries_map<K: AssocKey, V>(entries: Seq<(K, V)>) -> Map<K::Model, V> {
    Map::new(
        |key: K::Model| has_key(entries, key),
        |key: K::Model| entries[key_place(entries, key)].1,
    )
}

proof fn lemma_assoc_entry<K: AssocKey, V>(entries: Seq<(K, V)>, i: int)
    requires
        keys_distinct(entries),
        0 <= i < entries.len(),
    ensures
        entries_map(entries).contains_key(entries[i].0.model()),
        entries_map(entries)[entries[i].0.model()] == entries[i].1,
{
    assert(has_key(entries, entries[i].0.model()));
    let place = key_place(entries, entries[i].0.model());
    assert(place == i);
}

impl<K: AssocKey, V: Copy> View for AssocMap<K, V> {
    type V = Map<K::Model, V>;

    /// The map that the entries stand for.
    closed spec fn view(&self) -> Map<K::Model, V> {
        entries_map(self.entries@)
    }
}

impl<K: AssocKey, V: Copy> AssocMap<K, V> {
    #[verifier::type_invariant]
    spec fn entries_ok(self) -> bool {
        keys_distinct(self.entries@)
    }

    /// Creates an empty map.
    pub fn new() -> (map: Self)
        ensures
            map@ == Map::<K::Model, V>::empty(),
    {
        let map = AssocMap { entries: Vec::new() };
        assert(map@ =~= Map::<K::Model, V>::empty());
        map
    }

    /// Finds the place of a key.
    fn find(&self, key: K) -> (place: Option<usize>)
        ensures
            match place {
                Some(at) => {
                    &&& at < self.entries@.len()
                    &&& self.entries@[at as int].0.model() == key.model()
                    &&& self@.contains_key(key.model())
                    &&& self@[key.model()] == self.entries@[at as int].1
                },
                None => {
                    &&& !self@.contains_key(key.model())
                    &&& forall|i: int|
                        0 <= i < self.entries@.len() ==> (#[trigger] self.entries@[i]).0.model()
                            != key.model()
                },
            },
    {
        proof {
            use_type_invariant(&*self);
        }
        let mut at: usize = 0;
        while at < self.entries.len()
            invariant
                at <= self.entries@.len(),
                keys_distinct(self.entries@),
                forall|i: int|
                    0 <= i < at ==> (#[trigger] self.entries@[i]).0.model() != key.model(),
            decreases self.entries@.len() - at,
        {
            if self.entries[at].0.same(key) {
                proof {
                    lemma_assoc_entry(self.entries@, at as int);
                }
                return Some(at);
            }
            at = at + 1;
        }
        None
    }

    /// Returns what a key is mapped to.
    pub fn get(&self, key: K) -> (value: Option<V>)
        ensures
            value == (if self@.contains_key(key.model()) {
                Some(self@[key.model()])
            } else {
                None
            }),
    {
        match self.find(key) {
            Some(at) => Some(self.entries[at].1),
            None => None,
        }
    }

    /// Tells whether a key is mapped to anything.
    pub fn contains(&self, key: K) -> (found: bool)
        ensures
            found == self@.contains_key(key.model()),
    {
        match self.find(key) {
            Some(_at) => true,
            None => false,
        }
    }

    /// Maps a key to a value, in place of what it was mapped to before.
    pub fn insert(&mut self, key: K, value: V)
        ensures
            final(self)@ == old(self)@.insert(key.model(), value),
    {
        let _removed = self.remove(key);
        assert(!self@.contains_key(key.model()));
        proof {
            use_type_invariant(&*self);
        }
        let mut entries: Vec<(K, V)> = Vec::new();
        std::mem::swap(&mut self.entries, &mut entries);
        let ghost before = entries@;
        proof {
            assert forall|i: int| 0 <= i < before.len() implies (#[trigger] before[i]).0.model()
                != key.model() by {
                lemma_assoc_entry(before, i);
            }
        }
        entries.push((key, value));
        proof {
            assert(keys_distinct(entries@));
            lemma_assoc_pushed(before, (key, value));
            assert(old(self)@.remove(key.model()).insert(key.model(), value) =~= old(self)@.insert(
                key.model(),
                value,
            ));
        }
        self.entries = entries;
    }

    /// Removes a key and returns what it was mapped to.
    pub fn remove(&mut self, key: K) -> (removed: Option<V>)
        ensures
            final(self)@ == old(self)@.remove(key.model()),
            removed == (if old(self)@.contains_key(key.model()) {
                Some(old(self)@[key.model()])
            } else {
                None
            }),
    {
        match self.find(key) {
            Some(at) => {
                proof {
                    use_type_invariant(&*self);
                }
                let mut entries: Vec<(K, V)> = Vec::new();
                std::mem::swap(&mut self.entries, &mut entries);
                let ghost before = entries@;
                let entry = entries.remove(at);
                proof {
                    lemma_assoc_removed(before, at as int);
                }
                self.entries = entries;
                Some(entry.1)
            },
            None => {
                assert(self@ =~= self@.remove(key.model()));
                None
            },
        }
    }
}

proof fn lemma_assoc_pushed<K: AssocKey, V>(entries: Seq<(K, V)>, entry: (K, V))
    requires
        keys_distinct(entries),
        keys_distinct(entries.push(entry)),
    ensures
        entries_map(entries.push(entry)) == entries_map(entries).insert(entry.0.model(), entry.1),
{
    let more = entries.push(entry);
    let expected = entries_map(entries).insert(entry.0.model(), entry.1);
    assert(more[entries.len() as int] == entry);
    assert forall|key: K::Model| #[trigger]
        entries_map(more).contains_key(key) == expected.contains_key(key) by {
        if has_key(entries, key) {
            let i = key_place(entries, key);
            assert(more[i].0.model() == key);
        }
        if has_key(more, key) {
            let i = key_place(more, key);
            if i < entries.len() {
                assert(entries[i].0.model() == key);
            }
        }
    }
    assert forall|key: K::Model| entries_map(more).contains_key(key) implies #[trigger] entries_map(
        more,
    )[key] == expected[key] by {
        let i = key_place(more, key);
        lemma_assoc_entry(more, i);
        if i < entries.len() {
            assert(entries[i] == more[i]);
            lemma_assoc_entry(entries, i);
            assert(more[entries.len() as int].0.model() != key);
        }
    }
    assert(entries_map(more) =~= expected);
}

proof fn lemma_assoc_removed<K: AssocKey, V>(entries: Seq<(K, V)>, at: int)
    requires
        keys_distinct(entries),
        0 <= at < entries.len(),
    ensures
        keys_distinct(entries.remove(at)),
        entries_map(entries.remove(at)) == entries_map(entries).remove(entries[at].0.model()),
{
    let fewer = entries.remove(at);
    let expected = entries_map(entries).remove(entries[at].0.model());
    assert forall|i: int| 0 <= i < fewer.len() implies #[trigger] fewer[i] == entries[if i < at {
        i
    } else {
        i + 1
    }] by {}
    assert(keys_distinct(fewer));
    assert forall|key: K::Model| #[trigger]
        entries_map(fewer).contains_key(key) == expected.contains_key(key) by {
        if has_key(entries, key) && key != entries[at].0.model() {
            let i = key_place(entries, key);
            let k = if i < at {
                i
            } else {
                i - 1
            };
            assert(fewer[k].0.model() == key);
        }
        if has_key(fewer, key) {
            let k = key_place(fewer, key);
            let i = if k < at {
                k
            } else {
                k + 1
            };
            assert(entries[i].0.model() == key);
        }
    }
    assert forall|key: K::Model| entries_map(fewer).contains_key(key) implies #[trigger] entries_map(
        fewer,
    )[key] == expected[key] by {
        let k = key_place(fewer, key);
        lemma_assoc_entry(fewer, k);
        let i = if k < at {
            k
        } else {
            k + 1
        };
        lemma_assoc_entry(entries, i);
    }
    assert(entries_map(fewer) =~= expected);
}

/// Filtering one item more keeps or drops that item.
pub proof fn lemma_filter_take<A>(items: Seq<A>, taken: int, keep: spec_fn(A) -> bool)
    requires
        0 <= taken < items.len(),
    ensures
        items.take(taken + 1).filter(keep) == (if keep(items[taken]) {
            items.take(taken).filter(keep).push(items[taken])
        } else {
            items.take(taken).filter(keep)
        }),
{
    reveal(Seq::filter);
    assert(items.take(taken + 1).drop_last() =~= items.take(taken));
}

/// Filtering nothing gives nothing.
pub proof fn lemma_filter_nothing<A>(items: Seq<A>, keep: spec_fn(A) -> bool)
    ensures
        items.take(0).filter(keep) == Seq::<A>::empty(),
{
    reveal(Seq::filter);
    assert(items.take(0).filter(keep) =~= Seq::<A>::empty());
}

} // verus!
