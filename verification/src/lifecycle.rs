//! Runs of creations and disposals, and what holds of every one of them:
//! a guid is given to one object only, and an object is disposed once.

use crate::channel_owner::DisposeReason;
use crate::registry::{
    created, create_outcome, disposed, known, lemma_disposed_keeps, lemma_position_unique, live,
    position, well_formed, CreateOutcome, NodeView,
};
use serde_json::Value;
use vstd::prelude::*;

verus! {

/// A message that makes or ends remote objects.
pub enum LifecycleEvent {
    /// The driver announces an object.
    Create { parent: Seq<char>, type_tag: Seq<char>, guid: Seq<char>, initializer: Value },
    /// The driver disposes an object and, with it, its descendants.
    Dispose { guid: Seq<char>, reason: DisposeReason },
}

/// The arena after one event.
pub open spec fn after(nodes: Seq<NodeView>, event: LifecycleEvent) -> Seq<NodeView> {
    match event {
        LifecycleEvent::Create { parent, type_tag, guid, initializer } => created(
            nodes,
            parent,
            type_tag,
            guid,
            initializer,
        ),
        LifecycleEvent::Dispose { guid, reason } => disposed(nodes, guid, reason),
    }
}

/// The arena after the first `k` events of a run.
pub open spec fn after_run(nodes: Seq<NodeView>, events: Seq<LifecycleEvent>, k: nat) -> Seq<
    NodeView,
>
    decreases k,
{
    if k == 0 {
        nodes
    } else {
        after(after_run(nodes, events, (k - 1) as nat), events[k - 1])
    }
}

/// Whether event `k` of the run gives `guid` to an object: the guid was
/// not known before the event and is known after it.
pub open spec fn inserted_at(
    nodes: Seq<NodeView>,
    events: Seq<LifecycleEvent>,
    k: nat,
    guid: Seq<char>,
) -> bool {
    &&& k < events.len()
    &&& !known(after_run(nodes, events, k), guid)
    &&& known(after_run(nodes, events, k + 1), guid)
}

/// Whether event `k` of the run removes `guid`: the guid was present
/// before the event and is not present after it.
pub open spec fn removed_at(
    nodes: Seq<NodeView>,
    events: Seq<LifecycleEvent>,
    k: nat,
    guid: Seq<char>,
) -> bool {
    &&& k < events.len()
    &&& live(after_run(nodes, events, k), guid)
    &&& !live(after_run(nodes, events, k + 1), guid)
}

/// A creation leaves the arena well-formed and changes no node that was
/// there: what was known stays where it was.
pub proof fn lemma_created_keeps(
    nodes: Seq<NodeView>,
    parent: Seq<char>,
    type_tag: Seq<char>,
    guid: Seq<char>,
    initializer: Value,
)
    requires
        well_formed(nodes),
    ensures
        well_formed(created(nodes, parent, type_tag, guid, initializer)),
        created(nodes, parent, type_tag, guid, initializer).len() >= nodes.len(),
        forall|i: int|
            0 <= i < nodes.len() ==> #[trigger] created(
                nodes,
                parent,
                type_tag,
                guid,
                initializer,
            )[i] == nodes[i],
        forall|h: Seq<char>|
            known(nodes, h) ==> {
                &&& #[trigger] known(created(nodes, parent, type_tag, guid, initializer), h)
                &&& position(created(nodes, parent, type_tag, guid, initializer), h) == position(
                    nodes,
                    h,
                )
            },
{
    let after = created(nodes, parent, type_tag, guid, initializer);
    match create_outcome(nodes, parent, type_tag, guid, initializer) {
        CreateOutcome::Inserted(node) => {
            assert(after == nodes.push(node));
            assert(node.guid() == guid);
            assert forall|i: int, j: int| 0 <= i < j < after.len() implies (#[trigger] after[i]).guid()
                != (#[trigger] after[j]).guid() by {
                if j == nodes.len() {
                    assert(nodes[i].guid() != guid);
                } else {
                    assert(nodes[i].guid() != nodes[j].guid());
                }
            }
            let at = position(nodes, parent);
            assert forall|i: int| 0 <= i < after.len() implies match (#[trigger] after[i]).parent {
                Some(p) => {
                    &&& 0 <= p < after.len()
                    &&& after[i].is_live() ==> after[p].is_live()
                    &&& after[i].object.base().parent == Some(after[p].guid())
                },
                None => after[i].object.base().parent is None,
            } by {
                if i < nodes.len() {
                    let _ = nodes[i];
                }
            }
        },
        _ => {},
    }
    assert forall|h: Seq<char>| known(nodes, h) implies {
        &&& #[trigger] known(after, h)
        &&& position(after, h) == position(nodes, h)
    } by {
        let i = position(nodes, h);
        assert(after[i].guid() == h);
        lemma_position_unique(after, h, i);
    }
}

/// One event leaves the arena well-formed, forgets no guid, and revives
/// nothing: a guid that was known and not present is not present after.
pub proof fn lemma_event_keeps(nodes: Seq<NodeView>, event: LifecycleEvent)
    requires
        well_formed(nodes),
    ensures
        well_formed(after(nodes, event)),
        forall|h: Seq<char>| known(nodes, h) ==> #[trigger] known(after(nodes, event), h),
        forall|h: Seq<char>|
            known(nodes, h) && !live(nodes, h) ==> !#[trigger] live(after(nodes, event), h),
{
    let next = after(nodes, event);
    match event {
        LifecycleEvent::Create { parent, type_tag, guid, initializer } => {
            lemma_created_keeps(nodes, parent, type_tag, guid, initializer);
            assert forall|h: Seq<char>| known(nodes, h) && !live(nodes, h) implies !#[trigger] live(
                next,
                h,
            ) by {
                let _ = next[position(nodes, h)];
            }
        },
        LifecycleEvent::Dispose { guid, reason } => {
            lemma_disposed_keeps(nodes, guid, reason);
            assert forall|h: Seq<char>| known(nodes, h) && !live(nodes, h) implies !#[trigger] live(
                next,
                h,
            ) by {
                let _ = next[position(nodes, h)];
            }
        },
    }
}

/// No event changes an object that is in the arena: its guid, its type,
/// its initializer and its parent stay what they were when it was
/// created. Only the mark of disposal can be set.
pub proof fn lemma_event_keeps_objects(nodes: Seq<NodeView>, event: LifecycleEvent, i: int)
    requires
        well_formed(nodes),
        0 <= i < nodes.len(),
    ensures
        i < after(nodes, event).len(),
        after(nodes, event)[i].object == nodes[i].object,
        after(nodes, event)[i].parent == nodes[i].parent,
        after(nodes, event)[i].is_live() ==> nodes[i].is_live(),
{
    match event {
        LifecycleEvent::Create { parent, type_tag, guid, initializer } => {
            lemma_created_keeps(nodes, parent, type_tag, guid, initializer);
        },
        LifecycleEvent::Dispose { guid, reason } => {
            lemma_disposed_keeps(nodes, guid, reason);
        },
    }
}

/// Along a run the arena stays well-formed; a guid that is known stays
/// known, and one that is known and not present stays so.
pub proof fn lemma_run_keeps(
    nodes: Seq<NodeView>,
    events: Seq<LifecycleEvent>,
    from: nat,
    to: nat,
    guid: Seq<char>,
)
    requires
        well_formed(nodes),
        from <= to,
    ensures
        well_formed(after_run(nodes, events, to)),
        known(after_run(nodes, events, from), guid) ==> known(after_run(nodes, events, to), guid),
        known(after_run(nodes, events, from), guid) && !live(after_run(nodes, events, from), guid)
            ==> !live(after_run(nodes, events, to), guid),
    decreases to,
{
    if to > 0 {
        let earlier = if from < to {
            from
        } else {
            (to - 1) as nat
        };
        lemma_run_keeps(nodes, events, earlier, (to - 1) as nat, guid);
        lemma_event_keeps(after_run(nodes, events, (to - 1) as nat), events[to - 1]);
    }
}

/// In every run of creations and disposals, from every well-formed
/// registry, a guid is given to an object at most once.
pub proof fn lemma_created_at_most_once(
    nodes: Seq<NodeView>,
    events: Seq<LifecycleEvent>,
    guid: Seq<char>,
    first: nat,
    second: nat,
)
    requires
        well_formed(nodes),
        inserted_at(nodes, events, first, guid),
        inserted_at(nodes, events, second, guid),
    ensures
        first == second,
{
    if first < second {
        lemma_run_keeps(nodes, events, first + 1, second, guid);
    }
    if second < first {
        lemma_run_keeps(nodes, events, second + 1, first, guid);
    }
}

/// In every run of creations and disposals, from every well-formed
/// registry, a guid is removed at most once.
pub proof fn lemma_removed_at_most_once(
    nodes: Seq<NodeView>,
    events: Seq<LifecycleEvent>,
    guid: Seq<char>,
    first: nat,
    second: nat,
)
    requires
        well_formed(nodes),
        removed_at(nodes, events, first, guid),
        removed_at(nodes, events, second, guid),
    ensures
        first == second,
{
    if first < second {
        lemma_run_keeps(nodes, events, 0, first, guid);
        lemma_event_keeps(after_run(nodes, events, first), events[first as int]);
        lemma_run_keeps(nodes, events, first + 1, second, guid);
    }
    if second < first {
        lemma_run_keeps(nodes, events, 0, second, guid);
        lemma_event_keeps(after_run(nodes, events, second), events[second as int]);
        lemma_run_keeps(nodes, events, second + 1, first, guid);
    }
}

/// A guid that is present after a run was never removed in it; and if it
/// was not known when the run began, one event of the run created it.
pub proof fn lemma_present_was_created_and_never_removed(
    nodes: Seq<NodeView>,
    events: Seq<LifecycleEvent>,
    n: nat,
    guid: Seq<char>,
)
    requires
        well_formed(nodes),
        n <= events.len(),
        live(after_run(nodes, events, n), guid),
    ensures
        forall|k: nat| k < n ==> !removed_at(nodes, events, k, guid),
        !known(nodes, guid) ==> exists|k: nat| k < n && inserted_at(nodes, events, k, guid),
    decreases n,
{
    assert forall|k: nat| k < n implies !removed_at(nodes, events, k, guid) by {
        if removed_at(nodes, events, k, guid) {
            lemma_run_keeps(nodes, events, 0, k, guid);
            lemma_event_keeps(after_run(nodes, events, k), events[k as int]);
            lemma_run_keeps(nodes, events, k + 1, n, guid);
        }
    }
    if !known(nodes, guid) {
        lemma_first_known(nodes, events, n, guid);
    }
}

/// A guid that is known after a run and was not known before it was
/// created by one event of the run.
pub proof fn lemma_first_known(
    nodes: Seq<NodeView>,
    events: Seq<LifecycleEvent>,
    n: nat,
    guid: Seq<char>,
)
    requires
        n <= events.len(),
        !known(nodes, guid),
        known(after_run(nodes, events, n), guid),
    ensures
        exists|k: nat| k < n && inserted_at(nodes, events, k, guid),
    decreases n,
{
    if n > 0 {
        let m = (n - 1) as nat;
        if known(after_run(nodes, events, m), guid) {
            lemma_first_known(nodes, events, m, guid);
            let k = choose|k: nat| k < m && inserted_at(nodes, events, k, guid);
            assert(k < n && inserted_at(nodes, events, k, guid));
        } else {
            assert(inserted_at(nodes, events, m, guid));
        }
    }
}

} // verus!
