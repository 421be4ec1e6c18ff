//! Which children a failure restarts.

use vstd::prelude::*;

use crate::text::same_text;
use crate::types::{ChildSpec, Strategy};

verus! {

/// The ids of children, in the order of their specs.
pub open spec fn ids(specs: Seq<ChildSpec>) -> Seq<&'static str> {
    specs.map_values(|spec: ChildSpec| spec.id)
}

/// The place of the first spec with an id; the number of specs when there is none.
pub open spec fn first_place(specs: Seq<ChildSpec>, id: Seq<char>) -> nat
    decreases specs.len(),
{
    if specs.len() == 0 || specs[0].id@ == id {
        0
    } else {
        1 + first_place(specs.drop_first(), id)
    }
}

/// Whether some spec has the id.
pub open spec fn has_spec(specs: Seq<ChildSpec>, id: Seq<char>) -> bool {
    exists|i: int| 0 <= i < specs.len() && (#[trigger] specs[i]).id@ == id
}

/// The first place is the first place: nothing in front of it has the id.
pub proof fn lemma_first_place(specs: Seq<ChildSpec>, id: Seq<char>)
    ensures
        first_place(specs, id) <= specs.len(),
        first_place(specs, id) < specs.len() <==> has_spec(specs, id),
        first_place(specs, id) < specs.len() ==> specs[first_place(specs, id) as int].id@ == id,
        forall|i: int| 0 <= i < first_place(specs, id) ==> (#[trigger] specs[i]).id@ != id,
    decreases specs.len(),
{
    if specs.len() > 0 && specs[0].id@ != id {
        let rest = specs.drop_first();
        lemma_first_place(rest, id);
        if has_spec(rest, id) {
            let i = choose|i: int| 0 <= i < rest.len() && (#[trigger] rest[i]).id@ == id;
            assert(specs[i + 1].id@ == id);
        }
        if has_spec(specs, id) {
            let i = choose|i: int| 0 <= i < specs.len() && (#[trigger] specs[i]).id@ == id;
            assert(rest[i - 1].id@ == id);
        }
        assert forall|i: int| 0 <= i < first_place(specs, id) implies (
        #[trigger] specs[i]).id@ != id by {
            if i > 0 {
                assert(rest[i - 1] == specs[i]);
            }
        }
        if first_place(rest, id) < rest.len() {
            assert(rest[first_place(rest, id) as int] == specs[first_place(specs, id) as int]);
        }
    }
}

/// A place that has the id, with nothing in front of it that has it, is the first place.
pub(crate) proof fn lemma_is_first_place(specs: Seq<ChildSpec>, id: Seq<char>, at: int)
    requires
        0 <= at <= specs.len(),
        at < specs.len() ==> specs[at].id@ == id,
        forall|i: int| 0 <= i < at ==> (#[trigger] specs[i]).id@ != id,
    ensures
        first_place(specs, id) == at,
{
    lemma_first_place(specs, id);
    let first = first_place(specs, id) as int;
    if first < at {
        assert(specs[first].id@ != id);
    }
    if at < first {
        assert(specs[at].id@ != id);
    }
}

/// Finds the first spec with an id.
pub(crate) fn find_spec(specs: &[ChildSpec], id: &str) -> (place: Option<usize>)
    ensures
        match place {
            Some(at) => at < specs@.len() && at == first_place(specs@, id@) && specs@[at as int].id@
                == id@,
            None => first_place(specs@, id@) == specs@.len() && !has_spec(specs@, id@),
        },
{
    let mut at: usize = 0;
    while at < specs.len()
        invariant
            at <= specs@.len(),
            forall|i: int| 0 <= i < at ==> (#[trigger] specs@[i]).id@ != id@,
        decreases specs@.len() - at,
    {
        if same_text(specs[at].id, id) {
            proof {
                lemma_is_first_place(specs@, id@, at as int);
            }
            return Some(at);
        }
        at = at + 1;
    }
    proof {
        lemma_is_first_place(specs@, id@, specs@.len() as int);
        lemma_first_place(specs@, id@);
    }
    None
}

/// The children that restart when a child fails under a strategy.
pub open spec fn scope(
    strategy: Strategy,
    specs: Seq<ChildSpec>,
    failed_child: Seq<char>,
) -> Seq<&'static str> {
    match strategy {
        Strategy::OneForOne => if has_spec(specs, failed_child) {
            seq![specs[first_place(specs, failed_child) as int].id]
        } else {
            Seq::empty()
        },
        Strategy::OneForAll => ids(specs),
        Strategy::RestForOne => ids(specs).skip(first_place(specs, failed_child) as int),
    }
}

/// Lists the ids of the children from a place on.
fn ids_from(specs: &[ChildSpec], start: usize) -> (children: Vec<&'static str>)
    requires
        start <= specs@.len(),
    ensures
        children@ == ids(specs@).skip(start as int),
{
    let mut children: Vec<&'static str> = Vec::new();
    let mut at: usize = start;
    while at < specs.len()
        invariant
            start <= at <= specs@.len(),
            children@ == ids(specs@).subrange(start as int, at as int),
        decreases specs@.len() - at,
    {
        children.push(specs[at].id);
        at = at + 1;
        assert(children@ =~= ids(specs@).subrange(start as int, at as int));
    }
    assert(children@ =~= ids(specs@).skip(start as int));
    children
}

/// Computes which children should restart for a failed child under the strategy.
pub fn restart_scope(
    strategy: Strategy,
    specs: &[ChildSpec],
    failed_child: &'static str,
) -> (children: Vec<&'static str>)
    ensures
        children@ == scope(strategy, specs@, failed_child@),
        strategy is OneForOne ==> children@.len() <= 1,
        strategy is OneForOne && children@.len() == 1 ==> children@[0]@ == failed_child@,
        strategy is OneForAll ==> children@.len() == specs@.len() && forall|i: int|
            0 <= i < specs@.len() ==> (#[trigger] children@[i]) == specs@[i].id,
        strategy is RestForOne ==> children@.len() <= specs@.len() && forall|i: int|
            0 <= i < children@.len() ==> (#[trigger] children@[i]) == specs@[specs@.len()
                - children@.len() + i].id,
        strategy is RestForOne && children@.len() > 0 ==> children@[0]@ == failed_child@,
        !(strategy is OneForAll) ==> (children@.len() == 0 <==> forall|i: int|
            0 <= i < specs@.len() ==> (#[trigger] specs@[i]).id@ != failed_child@),
{
    proof {
        lemma_first_place(specs@, failed_child@);
    }
    match strategy {
        Strategy::OneForOne => {
            let mut children: Vec<&'static str> = Vec::new();
            if let Some(at) = find_spec(specs, failed_child) {
                children.push(specs[at].id);
                proof {
                    lemma_first_place(specs@, failed_child@);
                    assert(children@ =~= seq![specs@[at as int].id]);
                }
            }
            children
        },
        Strategy::OneForAll => {
            let children = ids_from(specs, 0);
            assert(children@ =~= ids(specs@));
            children
        },
        Strategy::RestForOne => {
            match find_spec(specs, failed_child) {
                Some(at) => ids_from(specs, at),
                None => {
                    let children: Vec<&'static str> = Vec::new();
                    assert(children@ =~= ids(specs@).skip(specs@.len() as int));
                    children
                },
            }
        },
    }
}

/// Every strategy restarts the failed child, and each wider one restarts what the narrower one does.
pub proof fn lemma_scopes_nest(specs: Seq<ChildSpec>, failed_child: Seq<char>)
    requires
        has_spec(specs, failed_child),
    ensures
        scope(Strategy::OneForOne, specs, failed_child).len() == 1,
        scope(Strategy::OneForOne, specs, failed_child)[0]@ == failed_child,
        scope(Strategy::RestForOne, specs, failed_child).len() > 0,
        scope(Strategy::RestForOne, specs, failed_child)[0] == scope(
            Strategy::OneForOne,
            specs,
            failed_child,
        )[0],
        scope(Strategy::OneForAll, specs, failed_child).take(
            first_place(specs, failed_child) as int,
        ) + scope(Strategy::RestForOne, specs, failed_child) == scope(
            Strategy::OneForAll,
            specs,
            failed_child,
        ),
        forall|i: int|
            0 <= i < first_place(specs, failed_child) ==> (#[trigger] scope(
                Strategy::OneForAll,
                specs,
                failed_child,
            )[i])@ != failed_child,
{
    lemma_first_place(specs, failed_child);
    let first = first_place(specs, failed_child) as int;
    assert(ids(specs).take(first) + ids(specs).skip(first) =~= ids(specs));
    assert forall|i: int| 0 <= i < first implies (#[trigger] ids(specs)[i])@ != failed_child by {
        assert(specs[i].id@ != failed_child);
    }
}

} // verus!
