//! The object registry: every remote object that the driver has announced,
//! held in one arena, with the tree of parents and children that disposal
//! cascades through.
//!
//! An object that is disposed stays in the arena, marked, so that its guid
//! can never be given to another object: what is called present, or live,
//! is an object that is in the arena and not marked.

use crate::channel_owner::{ChannelOwnerImpl, ChannelOwnerView, DisposeReason, ParentOrConnection};
use crate::error::Error;
use crate::json::{empty_object, json_strings, json_text};
use crate::protocol::browser::{Browser, BrowserView};
use crate::text::same;
use serde_json::Value;
use vstd::prelude::*;
use vstd::string::StringExecFns;

verus! {

/// A remote object as the client models it.
#[derive(Debug, Clone)]
pub enum RemoteObject {
    /// A browser, with its version and name.
    Browser(Browser),
    /// An object of a known type of which only the base is modelled.
    Generic(ChannelOwnerImpl),
}

/// What a [`RemoteObject`] holds.
pub enum RemoteObjectView {
    Browser(BrowserView),
    Generic(ChannelOwnerView),
}

impl RemoteObjectView {
    /// The base of the object.
    pub open spec fn base(self) -> ChannelOwnerView {
        match self {
            RemoteObjectView::Browser(browser) => browser.base,
            RemoteObjectView::Generic(base) => base,
        }
    }
}

impl View for RemoteObject {
    type V = RemoteObjectView;

    open spec fn view(&self) -> RemoteObjectView {
        match self {
            RemoteObject::Browser(browser) => RemoteObjectView::Browser(browser@),
            RemoteObject::Generic(base) => RemoteObjectView::Generic(base@),
        }
    }
}

impl RemoteObjectView {
    /// The object under another parent.
    pub open spec fn under(self, parent: Seq<char>) -> RemoteObjectView {
        match self {
            RemoteObjectView::Browser(browser) => RemoteObjectView::Browser(
                BrowserView {
                    base: ChannelOwnerView { parent: Some(parent), ..browser.base },
                    ..browser
                },
            ),
            RemoteObjectView::Generic(base) => RemoteObjectView::Generic(
                ChannelOwnerView { parent: Some(parent), ..base },
            ),
        }
    }
}

impl RemoteObject {
    /// Hangs the object under another parent.
    pub(crate) fn set_parent(&mut self, parent: String)
        ensures
            final(self)@ == old(self)@.under(parent@),
    {
        match self {
            RemoteObject::Browser(browser) => browser.set_parent(parent),
            RemoteObject::Generic(base) => base.set_parent(parent),
        }
    }

    /// The base of the object.
    pub fn base(&self) -> (base: &ChannelOwnerImpl)
        ensures
            base@ == self@.base(),
    {
        match self {
            RemoteObject::Browser(browser) => browser.base(),
            RemoteObject::Generic(base) => base,
        }
    }
}

/// One place in the arena: an object, the place of its parent, and whether
/// and why it was disposed.
#[derive(Debug)]
pub struct Node {
    object: RemoteObject,
    parent: Option<usize>,
    disposed: Option<DisposeReason>,
}

/// What a [`Node`] holds.
pub struct NodeView {
    pub object: RemoteObjectView,
    /// The place of the parent in the arena; `None` for the root.
    pub parent: Option<int>,
    /// Why the object was disposed; `None` while it is live.
    pub disposed: Option<DisposeReason>,
}

impl NodeView {
    /// The guid of the object.
    pub open spec fn guid(self) -> Seq<char> {
        self.object.base().guid
    }

    /// Whether the object has not been disposed.
    pub open spec fn is_live(self) -> bool {
        self.disposed is None
    }

    /// The node once it is disposed for `reason`. A node that was disposed
    /// before stays as it is.
    pub open spec fn retired(self, reason: DisposeReason) -> NodeView {
        if self.is_live() {
            NodeView { disposed: Some(reason), ..self }
        } else {
            self
        }
    }
}

impl View for Node {
    type V = NodeView;

    closed spec fn view(&self) -> NodeView {
        NodeView {
            object: self.object@,
            parent: match self.parent {
                Some(p) => Some(p as int),
                None => None,
            },
            disposed: self.disposed,
        }
    }
}

/// Whether a guid was ever given to an object of the arena, live or
/// disposed.
pub open spec fn known(nodes: Seq<NodeView>, guid: Seq<char>) -> bool {
    exists|i: int| 0 <= i < nodes.len() && (#[trigger] nodes[i]).guid() == guid
}

/// The place of the object with the guid, where it is known.
pub open spec fn position(nodes: Seq<NodeView>, guid: Seq<char>) -> int {
    choose|i: int| 0 <= i < nodes.len() && (#[trigger] nodes[i]).guid() == guid
}

/// Whether the guid is present: it names an object that has not been
/// disposed.
pub open spec fn live(nodes: Seq<NodeView>, guid: Seq<char>) -> bool {
    known(nodes, guid) && nodes[position(nodes, guid)].is_live()
}

/// The place that is reached from place `i` by going to the parent `up`
/// times, or `None` where the way ends before.
pub open spec fn ancestor(nodes: Seq<NodeView>, i: int, up: nat) -> Option<int>
    decreases up,
{
    if up == 0 {
        Some(i)
    } else {
        match ancestor(nodes, i, (up - 1) as nat) {
            Some(a) => if 0 <= a < nodes.len() {
                nodes[a].parent
            } else {
                None
            },
            None => None,
        }
    }
}

/// Whether place `i` lies in the subtree of place `x`: it is `x` or a
/// descendant of it.
pub open spec fn in_subtree(nodes: Seq<NodeView>, i: int, x: int) -> bool {
    exists|up: nat| ancestor(nodes, i, up) == Some(x)
}

/// What the arena keeps true: no two objects share a guid; every parent is
/// in the arena and is the one that the object names; and an object whose
/// parent is disposed is disposed too.
pub open spec fn well_formed(nodes: Seq<NodeView>) -> bool {
    &&& forall|i: int, j: int|
        0 <= i < j < nodes.len() ==> (#[trigger] nodes[i]).guid() != (#[trigger] nodes[j]).guid()
    &&& forall|i: int|
        0 <= i < nodes.len() ==> match (#[trigger] nodes[i]).parent {
            Some(p) => {
                &&& 0 <= p < nodes.len()
                &&& nodes[i].is_live() ==> nodes[p].is_live()
                &&& nodes[i].object.base().parent == Some(nodes[p].guid())
            },
            None => nodes[i].object.base().parent is None,
        }
}

/// Whether the arena holds the root alone: the live object with the empty
/// guid, of type `Root`, which stands for the connection, has no parent,
/// and has the empty object as its initializer.
pub open spec fn root_alone(nodes: Seq<NodeView>) -> bool {
    &&& nodes.len() == 1
    &&& nodes[0].parent is None
    &&& nodes[0].disposed is None
    &&& nodes[0].object is Generic
    &&& nodes[0].object.base().guid == ""@
    &&& nodes[0].object.base().type_tag == "Root"@
    &&& nodes[0].object.base().parent is None
    &&& json_text(nodes[0].object.base().initializer) == "{}"@
}

/// The type tags of the objects that the client models. A creation with
/// another tag is ignored.
pub open spec fn known_type(tag: Seq<char>) -> bool {
    ||| tag == "Playwright"@
    ||| tag == "BrowserType"@
    ||| tag == "Browser"@
    ||| tag == "BrowserContext"@
    ||| tag == "Page"@
    ||| tag == "Frame"@
}

/// What becomes of a creation.
pub enum CreateOutcome {
    /// The type is not one that the client models: nothing happens.
    Ignored,
    /// The creation is refused as a protocol error with this text.
    Refused(Seq<char>),
    /// The object is put into the arena as this node.
    Inserted(NodeView),
}

/// What becomes of the creation of an object `guid` of type `tag` under
/// `parent`: it is ignored for a type that is not modelled; refused where
/// the parent is not present, where the guid was given before, or, for a
/// browser, where the initializer lacks `version` or `name`; and else the
/// object is inserted, live, as a child of the parent.
pub open spec fn create_outcome(
    nodes: Seq<NodeView>,
    parent: Seq<char>,
    tag: Seq<char>,
    guid: Seq<char>,
    initializer: Value,
) -> CreateOutcome {
    let base = ChannelOwnerView { guid, type_tag: tag, parent: Some(parent), initializer };
    let at = Some(position(nodes, parent));
    if !known_type(tag) {
        CreateOutcome::Ignored
    } else if !live(nodes, parent) {
        CreateOutcome::Refused("Parent object not found: "@ + parent)
    } else if known(nodes, guid) {
        CreateOutcome::Refused("Duplicate guid: "@ + guid)
    } else if tag != "Browser"@ {
        CreateOutcome::Inserted(
            NodeView { object: RemoteObjectView::Generic(base), parent: at, disposed: None },
        )
    } else if !json_strings(initializer).contains_key("version"@) {
        CreateOutcome::Refused("Browser initializer missing 'version' field"@)
    } else if !json_strings(initializer).contains_key("name"@) {
        CreateOutcome::Refused("Browser initializer missing 'name' field"@)
    } else {
        CreateOutcome::Inserted(
            NodeView {
                object: RemoteObjectView::Browser(
                    BrowserView {
                        base,
                        version: json_strings(initializer)["version"@],
                        name: json_strings(initializer)["name"@],
                    },
                ),
                parent: at,
                disposed: None,
            },
        )
    }
}

/// The arena after the creation: with the new node at its end where the
/// object is inserted, and unchanged otherwise.
pub open spec fn created(
    nodes: Seq<NodeView>,
    parent: Seq<char>,
    tag: Seq<char>,
    guid: Seq<char>,
    initializer: Value,
) -> Seq<NodeView> {
    match create_outcome(nodes, parent, tag, guid, initializer) {
        CreateOutcome::Inserted(node) => nodes.push(node),
        _ => nodes,
    }
}

/// The arena after the subtree of place `x` is disposed for `reason`:
/// every live node of the subtree is marked, and nothing else changes.
pub open spec fn without_subtree(nodes: Seq<NodeView>, x: int, reason: DisposeReason) -> Seq<
    NodeView,
> {
    Seq::new(
        nodes.len(),
        |i: int|
            if in_subtree(nodes, i, x) {
                nodes[i].retired(reason)
            } else {
                nodes[i]
            },
    )
}

/// The arena after the object `guid` is disposed for `reason`: the object
/// and all its descendants are marked. Where the guid is not present,
/// nothing changes.
pub open spec fn disposed(nodes: Seq<NodeView>, guid: Seq<char>, reason: DisposeReason) -> Seq<
    NodeView,
> {
    if live(nodes, guid) {
        without_subtree(nodes, position(nodes, guid), reason)
    } else {
        nodes
    }
}

/// The guids of the live children of place `at` among the first `upto`
/// places, in the order of the arena.
pub open spec fn children_among(nodes: Seq<NodeView>, at: int, upto: nat) -> Seq<Seq<char>>
    decreases upto,
{
    if upto == 0 {
        Seq::empty()
    } else {
        let earlier = children_among(nodes, at, (upto - 1) as nat);
        let node = nodes[upto - 1];
        if node.parent == Some(at) && node.is_live() {
            earlier.push(node.guid())
        } else {
            earlier
        }
    }
}

/// The guids of the children of a present object that are present, the
/// oldest first. Empty for a guid that is not present.
pub open spec fn children(nodes: Seq<NodeView>, guid: Seq<char>) -> Seq<Seq<char>> {
    if live(nodes, guid) {
        children_among(nodes, position(nodes, guid), nodes.len())
    } else {
        Seq::empty()
    }
}

/// The views of the strings.
pub open spec fn texts(strings: Seq<String>) -> Seq<Seq<char>> {
    Seq::new(strings.len(), |i: int| strings[i]@)
}

/// What becomes of an adoption.
pub enum AdoptOutcome {
    /// The child is not present: nothing happens.
    Dropped,
    /// The parent is not present: the child is disposed, with all its
    /// descendants.
    Orphaned,
    /// The parent lies in the subtree of the child: the adoption would
    /// close a circle and is refused.
    Circular,
    /// The child is hung under the parent.
    Adopted,
}

/// What becomes of the adoption of `child` by `parent`.
pub open spec fn adopt_outcome(
    nodes: Seq<NodeView>,
    parent: Seq<char>,
    child: Seq<char>,
) -> AdoptOutcome {
    if !live(nodes, child) {
        AdoptOutcome::Dropped
    } else if !live(nodes, parent) {
        AdoptOutcome::Orphaned
    } else if in_subtree(nodes, position(nodes, parent), position(nodes, child)) {
        AdoptOutcome::Circular
    } else {
        AdoptOutcome::Adopted
    }
}

/// The arena after the adoption of `child` by `parent`: the child hangs
/// under the parent, with its subtree; or, where the parent is not
/// present, the child and its descendants are disposed. Where the child
/// is not present or the adoption is refused, nothing changes.
pub open spec fn adopted(nodes: Seq<NodeView>, parent: Seq<char>, child: Seq<char>) -> Seq<
    NodeView,
> {
    match adopt_outcome(nodes, parent, child) {
        AdoptOutcome::Dropped => nodes,
        AdoptOutcome::Orphaned => disposed(nodes, child, DisposeReason::Closed),
        AdoptOutcome::Circular => nodes,
        AdoptOutcome::Adopted => {
            let at = position(nodes, child);
            nodes.update(
                at,
                NodeView {
                    object: nodes[at].object.under(parent),
                    parent: Some(position(nodes, parent)),
                    disposed: nodes[at].disposed,
                },
            )
        },
    }
}

/// What an adoption did.
#[derive(Debug, Clone, Copy, PartialEq, Eq, Structural)]
pub enum Adoption {
    /// The child hangs under the new parent now.
    Adopted,
    /// The parent was not present, so the child was disposed.
    Orphaned,
    /// The child was not present; nothing was done.
    Dropped,
}

/// What a creation did.
#[derive(Debug, Clone, Copy, PartialEq, Eq, Structural)]
pub enum Creation {
    /// The object is in the registry now.
    Inserted,
    /// The type is not one that the client models; nothing was done.
    Ignored,
}

/// The registry of one connection.
pub struct Registry {
    nodes: Vec<Node>,
    rank: Ghost<Seq<nat>>,
}

impl View for Registry {
    type V = Seq<NodeView>;

    closed spec fn view(&self) -> Seq<NodeView> {
        Seq::new(self.nodes@.len(), |i: int| self.nodes@[i]@)
    }
}

/// Going up `up + 1` times from a place is going up `up` times from its
/// parent.
pub proof fn lemma_ancestor_of_parent(nodes: Seq<NodeView>, i: int, up: nat)
    requires
        0 <= i < nodes.len(),
    ensures
        ancestor(nodes, i, up + 1) == match nodes[i].parent {
            Some(p) => ancestor(nodes, p, up),
            None => None,
        },
    decreases up,
{
    reveal_with_fuel(ancestor, 2);
    if up > 0 {
        lemma_ancestor_of_parent(nodes, i, (up - 1) as nat);
        assert((up + 1 - 1) as nat == up);
        match nodes[i].parent {
            Some(p) => {
                assert(ancestor(nodes, i, up) == ancestor(nodes, p, (up - 1) as nat));
            },
            None => {},
        }
    }
}

/// Going up `a` times and then `b` times is going up `a + b` times.
pub proof fn lemma_ancestor_chain(nodes: Seq<NodeView>, i: int, a: nat, b: nat)
    ensures
        ancestor(nodes, i, a + b) == match ancestor(nodes, i, a) {
            Some(m) => ancestor(nodes, m, b),
            None => None,
        },
    decreases b,
{
    if b > 0 {
        lemma_ancestor_chain(nodes, i, a, (b - 1) as nat);
        assert(a + b - 1 == a + (b - 1));
    }
}

/// Where the way up has ended, it stays ended.
pub proof fn lemma_ancestor_ended(nodes: Seq<NodeView>, i: int, at: nat, up: nat)
    requires
        ancestor(nodes, i, at) is None,
        at <= up,
    ensures
        ancestor(nodes, i, up) is None,
    decreases up,
{
    if at < up {
        lemma_ancestor_ended(nodes, i, at, (up - 1) as nat);
    }
}

/// The way up depends on the parents alone.
pub proof fn lemma_ancestor_same_parents(a: Seq<NodeView>, b: Seq<NodeView>, i: int, up: nat)
    requires
        a.len() == b.len(),
        forall|k: int| 0 <= k < a.len() ==> (#[trigger] a[k]).parent == b[k].parent,
    ensures
        ancestor(a, i, up) == ancestor(b, i, up),
    decreases up,
{
    if up > 0 {
        lemma_ancestor_same_parents(a, b, i, (up - 1) as nat);
    }
}

/// In a well-formed arena a guid is found at one place only.
pub proof fn lemma_position_unique(nodes: Seq<NodeView>, guid: Seq<char>, i: int)
    requires
        well_formed(nodes),
        0 <= i < nodes.len(),
        nodes[i].guid() == guid,
    ensures
        known(nodes, guid),
        position(nodes, guid) == i,
{
}

/// Whether a place lies in a subtree depends on the parents alone.
pub proof fn lemma_subtree_same_parents(a: Seq<NodeView>, b: Seq<NodeView>, i: int, x: int)
    requires
        a.len() == b.len(),
        forall|k: int| 0 <= k < a.len() ==> (#[trigger] a[k]).parent == b[k].parent,
    ensures
        in_subtree(a, i, x) == in_subtree(b, i, x),
{
    assert forall|up: nat| ancestor(a, i, up) == ancestor(b, i, up) by {
        lemma_ancestor_same_parents(a, b, i, up);
    }
}

/// Whoever has its parent in a subtree is in the subtree.
pub proof fn lemma_child_in_subtree(nodes: Seq<NodeView>, i: int, x: int)
    requires
        0 <= i < nodes.len(),
        nodes[i].parent matches Some(p) && in_subtree(nodes, p, x),
    ensures
        in_subtree(nodes, i, x),
{
    let p = nodes[i].parent->0;
    let up = choose|up: nat| ancestor(nodes, p, up) == Some(x);
    lemma_ancestor_of_parent(nodes, i, up);
}

/// Disposing a subtree leaves the arena well-formed.
pub proof fn lemma_without_subtree_well_formed(nodes: Seq<NodeView>, x: int, reason: DisposeReason)
    requires
        well_formed(nodes),
    ensures
        well_formed(without_subtree(nodes, x, reason)),
{
    let after = without_subtree(nodes, x, reason);
    assert forall|i: int, j: int| 0 <= i < j < after.len() implies (#[trigger] after[i]).guid() != (
    #[trigger] after[j]).guid() by {
        assert(nodes[i].guid() != nodes[j].guid());
    }
    assert forall|i: int| 0 <= i < after.len() implies match (#[trigger] after[i]).parent {
        Some(p) => {
            &&& 0 <= p < after.len()
            &&& after[i].is_live() ==> after[p].is_live()
            &&& after[i].object.base().parent == Some(after[p].guid())
        },
        None => after[i].object.base().parent is None,
    } by {
        match nodes[i].parent {
            Some(p) => {
                if after[i].is_live() && in_subtree(nodes, p, x) {
                    lemma_child_in_subtree(nodes, i, x);
                }
            },
            None => {},
        }
    }
}

/// A subtree holds the subtrees of its members.
pub proof fn lemma_subtree_transitive(nodes: Seq<NodeView>, i: int, m: int, x: int)
    requires
        in_subtree(nodes, i, m),
        in_subtree(nodes, m, x),
    ensures
        in_subtree(nodes, i, x),
{
    let a = choose|a: nat| ancestor(nodes, i, a) == Some(m);
    let b = choose|b: nat| ancestor(nodes, m, b) == Some(x);
    lemma_ancestor_chain(nodes, i, a, b);
}

/// What disposal keeps: the places, the objects and the parents, hence the
/// guids and their places, and what lies in which subtree. It marks the
/// live nodes of the subtree and no others.
pub proof fn lemma_disposed_keeps(nodes: Seq<NodeView>, guid: Seq<char>, reason: DisposeReason)
    requires
        well_formed(nodes),
    ensures
        well_formed(disposed(nodes, guid, reason)),
        disposed(nodes, guid, reason).len() == nodes.len(),
        forall|i: int|
            0 <= i < nodes.len() ==> {
                let after = #[trigger] disposed(nodes, guid, reason)[i];
                &&& after.object == nodes[i].object
                &&& after.parent == nodes[i].parent
                &&& after == if live(nodes, guid) && in_subtree(
                    nodes,
                    i,
                    position(nodes, guid),
                ) {
                    nodes[i].retired(reason)
                } else {
                    nodes[i]
                }
            },
        forall|h: Seq<char>| #[trigger]
            known(disposed(nodes, guid, reason), h) == known(nodes, h),
        forall|h: Seq<char>|
            known(nodes, h) ==> #[trigger] position(disposed(nodes, guid, reason), h) == position(
                nodes,
                h,
            ),
        forall|i: int, x: int| #[trigger]
            in_subtree(disposed(nodes, guid, reason), i, x) == in_subtree(nodes, i, x),
{
    let after = disposed(nodes, guid, reason);
    if live(nodes, guid) {
        lemma_without_subtree_well_formed(nodes, position(nodes, guid), reason);
    }
    assert forall|h: Seq<char>| #[trigger] known(after, h) == known(nodes, h) by {
        if known(nodes, h) {
            let i = position(nodes, h);
            assert(after[i].guid() == h);
        }
        if known(after, h) {
            let i = position(after, h);
            assert(nodes[i].guid() == h);
        }
    }
    assert forall|h: Seq<char>| known(nodes, h) implies #[trigger] position(after, h) == position(
        nodes,
        h,
    ) by {
        let i = position(nodes, h);
        assert(after[i].guid() == h);
        lemma_position_unique(after, h, i);
    }
    assert forall|i: int, x: int| #[trigger] in_subtree(after, i, x) == in_subtree(nodes, i, x) by {
        lemma_subtree_same_parents(after, nodes, i, x);
    }
}

/// Each object is disposed once: disposing a guid again changes nothing.
pub proof fn lemma_dispose_again(
    nodes: Seq<NodeView>,
    guid: Seq<char>,
    first: DisposeReason,
    second: DisposeReason,
)
    requires
        well_formed(nodes),
    ensures
        !live(disposed(nodes, guid, first), guid),
        disposed(disposed(nodes, guid, first), guid, second) == disposed(nodes, guid, first),
{
    lemma_disposed_keeps(nodes, guid, first);
    if live(nodes, guid) {
        let x = position(nodes, guid);
        assert(ancestor(nodes, x, 0) == Some(x));
        assert(in_subtree(nodes, x, x));
        assert(!disposed(nodes, guid, first)[x].is_live());
    }
}

/// Disposal removes the subtree and nothing else: afterwards a guid is
/// present exactly if it was present before and its object lies outside
/// the subtree of the disposed object.
pub proof fn lemma_dispose_removes_subtree(
    nodes: Seq<NodeView>,
    guid: Seq<char>,
    reason: DisposeReason,
    other: Seq<char>,
)
    requires
        well_formed(nodes),
        live(nodes, guid),
    ensures
        live(disposed(nodes, guid, reason), other) <==> live(nodes, other) && !in_subtree(
            nodes,
            position(nodes, other),
            position(nodes, guid),
        ),
{
    lemma_disposed_keeps(nodes, guid, reason);
    if known(nodes, other) {
        let i = position(nodes, other);
        let _ = disposed(nodes, guid, reason)[i];
    }
}

/// The order of two disposals does not matter: whichever comes first, the
/// same objects are live afterwards, and nothing but the marks has
/// changed. Where both give the same reason, the registries are equal.
pub proof fn lemma_dispose_commutes(
    nodes: Seq<NodeView>,
    a: Seq<char>,
    why_a: DisposeReason,
    b: Seq<char>,
    why_b: DisposeReason,
)
    requires
        well_formed(nodes),
    ensures
        ({
            let ab = disposed(disposed(nodes, a, why_a), b, why_b);
            let ba = disposed(disposed(nodes, b, why_b), a, why_a);
            &&& ab.len() == nodes.len()
            &&& ba.len() == nodes.len()
            &&& forall|i: int|
                0 <= i < nodes.len() ==> {
                    &&& (#[trigger] ab[i]).is_live() == ba[i].is_live()
                    &&& ab[i].object == ba[i].object
                    &&& ab[i].parent == ba[i].parent
                }
            &&& why_a == why_b ==> ab == ba
        }),
{
    let first_a = disposed(nodes, a, why_a);
    let first_b = disposed(nodes, b, why_b);
    let ab = disposed(first_a, b, why_b);
    let ba = disposed(first_b, a, why_a);
    lemma_disposed_keeps(nodes, a, why_a);
    lemma_disposed_keeps(nodes, b, why_b);
    lemma_disposed_keeps(first_a, b, why_b);
    lemma_disposed_keeps(first_b, a, why_a);
    let at_a = position(nodes, a);
    let at_b = position(nodes, b);
    assert forall|i: int| 0 <= i < nodes.len() implies {
        &&& (#[trigger] ab[i]).is_live() == ba[i].is_live()
        &&& ab[i].object == ba[i].object
        &&& ab[i].parent == ba[i].parent
        &&& why_a == why_b ==> ab[i] == ba[i]
    } by {
        let _ = first_a[i];
        let _ = first_b[i];
        let _ = ba[i];
        if known(nodes, a) {
            let _ = first_b[at_a];
        }
        if known(nodes, b) {
            let _ = first_a[at_b];
        }
        if live(nodes, a) && live(nodes, b) {
            if in_subtree(nodes, i, at_a) && in_subtree(nodes, at_a, at_b) {
                lemma_subtree_transitive(nodes, i, at_a, at_b);
            }
            if in_subtree(nodes, i, at_b) && in_subtree(nodes, at_b, at_a) {
                lemma_subtree_transitive(nodes, i, at_b, at_a);
            }
        }
    }
    if why_a == why_b {
        assert(ab =~= ba);
    }
}

/// Whoever lies in a subtree and is not its root has its parent in the
/// subtree.
pub proof fn lemma_parent_in_subtree(nodes: Seq<NodeView>, i: int, x: int)
    requires
        0 <= i < nodes.len(),
        in_subtree(nodes, i, x),
        i != x,
    ensures
        nodes[i].parent matches Some(p) && in_subtree(nodes, p, x),
{
    let up = choose|up: nat| ancestor(nodes, i, up) == Some(x);
    lemma_ancestor_of_parent(nodes, i, (up - 1) as nat);
}

/// An adoption leaves the arena well-formed.
pub proof fn lemma_adopted_well_formed(nodes: Seq<NodeView>, parent: Seq<char>, child: Seq<char>)
    requires
        well_formed(nodes),
    ensures
        well_formed(adopted(nodes, parent, child)),
{
    let after = adopted(nodes, parent, child);
    match adopt_outcome(nodes, parent, child) {
        AdoptOutcome::Orphaned => {
            lemma_disposed_keeps(nodes, child, DisposeReason::Closed);
        },
        AdoptOutcome::Adopted => {
            let at = position(nodes, child);
            let to = position(nodes, parent);
            assert forall|i: int, j: int| 0 <= i < j < after.len() implies (
            #[trigger] after[i]).guid() != (#[trigger] after[j]).guid() by {
                assert(nodes[i].guid() != nodes[j].guid());
            }
            assert forall|i: int| 0 <= i < after.len() implies match (#[trigger] after[i]).parent {
                Some(p) => {
                    &&& 0 <= p < after.len()
                    &&& after[i].is_live() ==> after[p].is_live()
                    &&& after[i].object.base().parent == Some(after[p].guid())
                },
                None => after[i].object.base().parent is None,
            } by {
                let _ = nodes[i];
            }
        },
        _ => {},
    }
}

/// The children among the first places do not depend on what follows.
pub proof fn lemma_children_among_prefix(a: Seq<NodeView>, b: Seq<NodeView>, at: int, upto: nat)
    requires
        upto <= a.len(),
        upto <= b.len(),
        forall|i: int| 0 <= i < upto ==> a[i] == b[i],
    ensures
        children_among(a, at, upto) == children_among(b, at, upto),
    decreases upto,
{
    if upto > 0 {
        lemma_children_among_prefix(a, b, at, (upto - 1) as nat);
    }
}

/// An object that is created is the youngest child of its parent, and no
/// other object gains or loses a child.
pub proof fn lemma_created_is_child(
    nodes: Seq<NodeView>,
    parent: Seq<char>,
    tag: Seq<char>,
    guid: Seq<char>,
    initializer: Value,
    other: Seq<char>,
)
    requires
        well_formed(nodes),
        create_outcome(nodes, parent, tag, guid, initializer) is Inserted,
    ensures
        live(created(nodes, parent, tag, guid, initializer), guid),
        children(created(nodes, parent, tag, guid, initializer), parent) == children(
            nodes,
            parent,
        ).push(guid),
        children(created(nodes, parent, tag, guid, initializer), guid) == Seq::<Seq<char>>::empty(),
        other != parent && other != guid ==> children(
            created(nodes, parent, tag, guid, initializer),
            other,
        ) == children(nodes, other),
{
    let after = created(nodes, parent, tag, guid, initializer);
    let node = create_outcome(nodes, parent, tag, guid, initializer)->Inserted_0;
    let n = nodes.len();
    assert(after == nodes.push(node));
    assert(after[n as int].guid() == guid);
    assert forall|i: int, j: int| 0 <= i < j < after.len() implies (#[trigger] after[i]).guid() != (
    #[trigger] after[j]).guid() by {
        if j == n {
            assert(nodes[i].guid() != guid);
        } else {
            assert(nodes[i].guid() != nodes[j].guid());
        }
    }
    let at = position(nodes, parent);
    assert(after[at].guid() == parent);
    assert(known(after, parent) && position(after, parent) == at);
    assert(known(after, guid) && position(after, guid) == n);
    lemma_children_among_prefix(after, nodes, at, n);
    lemma_children_among_prefix(after, nodes, n as int, n);
    lemma_no_child_of_later(nodes, n as int, n);
    if other != parent && other != guid {
        if known(nodes, other) {
            let o = position(nodes, other);
            assert(after[o].guid() == other);
            assert(known(after, other) && position(after, other) == o);
            lemma_children_among_prefix(after, nodes, o, n);
        } else if known(after, other) {
            let o = position(after, other);
            if o < n {
                assert(nodes[o].guid() == other);
            }
        }
    }
}

/// No object of a well-formed arena hangs under a place outside it.
pub proof fn lemma_no_child_of_later(nodes: Seq<NodeView>, at: int, upto: nat)
    requires
        well_formed(nodes),
        at >= nodes.len(),
        upto <= nodes.len(),
    ensures
        children_among(nodes, at, upto) == Seq::<Seq<char>>::empty(),
    decreases upto,
{
    if upto > 0 {
        lemma_no_child_of_later(nodes, at, (upto - 1) as nat);
        let _ = nodes[upto - 1];
    }
}

fn is_known_type(tag: &str) -> (modelled: bool)
    ensures
        modelled == known_type(tag@),
{
    same(tag, "Playwright") || same(tag, "BrowserType") || same(tag, "Browser") || same(
        tag,
        "BrowserContext",
    ) || same(tag, "Page") || same(tag, "Frame")
}

impl Registry {
    /// Whether every parent is in the arena and ranks below its child, so
    /// that no way up comes back to where it began.
    pub closed spec fn linked(&self) -> bool {
        &&& self.rank@.len() == self.nodes@.len()
        &&& forall|i: int|
            0 <= i < self.nodes@.len() ==> match (#[trigger] self.nodes@[i]).parent {
                Some(p) => p < self.nodes@.len() && self.rank@[p as int] < self.rank@[i],
                None => true,
            }
    }

    /// Whether the registry is as every operation leaves it.
    pub closed spec fn wf(&self) -> bool {
        &&& well_formed(self@)
        &&& self.linked()
    }

    /// Every registry that operations have left is well-formed.
    pub proof fn lemma_wf(&self)
        requires
            self.wf(),
        ensures
            well_formed(self@),
    {
    }

    /// A registry that holds the root alone: see [`root_alone`].
    pub fn new() -> (registry: Registry)
        ensures
            registry.wf(),
            root_alone(registry@),
    {
        let root = ChannelOwnerImpl::new(
            ParentOrConnection::Connection,
            String::from_str("Root"),
            String::from_str(""),
            empty_object(),
        );
        let mut nodes = Vec::new();
        nodes.push(Node { object: RemoteObject::Generic(root), parent: None, disposed: None });
        let rank = Ghost(Seq::<nat>::empty().push(0));
        Registry { nodes, rank }
    }

    /// The place of the object with the guid, live or disposed.
    fn find(&self, guid: &str) -> (found: Option<usize>)
        ensures
            match found {
                Some(i) => i < self@.len() && self@[i as int].guid() == guid@,
                None => !known(self@, guid@),
            },
    {
        let mut i: usize = 0;
        while i < self.nodes.len()
            invariant
                i <= self.nodes.len(),
                forall|k: int| 0 <= k < i ==> (#[trigger] self@[k]).guid() != guid@,
            decreases self.nodes.len() - i,
        {
            if same(self.nodes[i].object.base().guid(), guid) {
                return Some(i);
            }
            i += 1;
        }
        None
    }

    /// The place of the live object with the guid.
    fn find_live(&self, guid: &str) -> (found: Option<usize>)
        requires
            self.wf(),
        ensures
            match found {
                Some(i) => live(self@, guid@) && i == position(self@, guid@) && i < self@.len(),
                None => !live(self@, guid@),
            },
    {
        match self.find(guid) {
            Some(i) => {
                proof {
                    lemma_position_unique(self@, guid@, i as int);
                }
                if self.nodes[i].disposed.is_none() {
                    Some(i)
                } else {
                    None
                }
            },
            None => None,
        }
    }

    /// Whether place `i` lies in the subtree of place `x`.
    fn is_within(&self, i: usize, x: usize) -> (within: bool)
        requires
            self.linked(),
            i < self.nodes.len(),
        ensures
            within == in_subtree(self@, i as int, x as int),
    {
        let mut cur = i;
        let ghost mut steps: nat = 0;
        loop
            invariant
                self.linked(),
                cur < self.nodes.len(),
                ancestor(self@, i as int, steps) == Some(cur as int),
                forall|k: nat| k < steps ==> ancestor(self@, i as int, k) != Some(x as int),
            decreases self.rank@[cur as int],
        {
            if cur == x {
                return true;
            }
            match self.nodes[cur].parent {
                None => {
                    proof {
                        assert(ancestor(self@, i as int, steps + 1) is None);
                        assert forall|up: nat| ancestor(self@, i as int, up) != Some(
                            x as int,
                        ) by {
                            if up > steps {
                                lemma_ancestor_ended(self@, i as int, steps + 1, up);
                            }
                        }
                    }
                    return false;
                },
                Some(p) => {
                    proof {
                        assert(ancestor(self@, i as int, steps + 1) == Some(p as int));
                        steps = steps + 1;
                    }
                    cur = p;
                },
            }
        }
    }

    /// Whether the guid is present: it names an object that has not been
    /// disposed.
    pub fn contains(&self, guid: &str) -> (present: bool)
        requires
            self.wf(),
        ensures
            present == live(self@, guid@),
    {
        self.find_live(guid).is_some()
    }

    /// The object with the guid, where it is present.
    pub fn get(&self, guid: &str) -> (found: Option<&RemoteObject>)
        requires
            self.wf(),
        ensures
            match found {
                Some(object) => live(self@, guid@) && object@ == self@[position(
                    self@,
                    guid@,
                )].object,
                None => !live(self@, guid@),
            },
    {
        match self.find_live(guid) {
            Some(i) => Some(&self.nodes[i].object),
            None => None,
        }
    }

    /// The guid of the parent of a present object. `None` for the root and
    /// for a guid that is not present.
    pub fn parent_of(&self, guid: &str) -> (parent: Option<&str>)
        requires
            self.wf(),
        ensures
            match parent {
                Some(p) => live(self@, guid@) && self@[position(self@, guid@)].object.base().parent
                    == Some(p@),
                None => !live(self@, guid@) || self@[position(self@, guid@)].parent is None,
            },
    {
        match self.find_live(guid) {
            Some(i) => self.nodes[i].object.base().parent(),
            None => None,
        }
    }

    /// The guids of the children of a present object that are present,
    /// the oldest first.
    pub fn children_of(&self, guid: &str) -> (found: Vec<String>)
        requires
            self.wf(),
        ensures
            texts(found@) == children(self@, guid@),
    {
        let mut found: Vec<String> = Vec::new();
        let at = match self.find_live(guid) {
            Some(at) => at,
            None => {
                assert(texts(found@) =~= children(self@, guid@));
                return found;
            },
        };
        let mut i: usize = 0;
        while i < self.nodes.len()
            invariant
                i <= self.nodes.len(),
                texts(found@) == children_among(self@, at as int, i as nat),
            decreases self.nodes.len() - i,
        {
            let node = &self.nodes[i];
            let ghost earlier = found@;
            let is_child = match node.parent {
                Some(p) => p == at,
                None => false,
            };
            if is_child && node.disposed.is_none() {
                found.push(node.object.base().guid().to_owned());
                assert(texts(found@) =~= texts(earlier).push(self@[i as int].guid()));
            }
            i += 1;
        }
        found
    }

    /// Why the object with the guid was disposed; `None` while it is
    /// present, and for a guid that was never given.
    pub fn disposal_of(&self, guid: &str) -> (reason: Option<DisposeReason>)
        requires
            self.wf(),
        ensures
            reason == if known(self@, guid@) {
                self@[position(self@, guid@)].disposed
            } else {
                None
            },
    {
        match self.find(guid) {
            Some(i) => {
                proof {
                    lemma_position_unique(self@, guid@, i as int);
                }
                self.nodes[i].disposed
            },
            None => None,
        }
    }

    /// Takes a creation: see [`create_outcome`]. An object that is
    /// inserted is live and a child of `parent`; in every other case the
    /// registry stays as it was.
    pub fn create(
        &mut self,
        parent: &str,
        type_tag: String,
        guid: String,
        initializer: Value,
    ) -> (made: Result<Creation, Error>)
        requires
            old(self).wf(),
        ensures
            final(self).wf(),
            final(self)@ == created(old(self)@, parent@, type_tag@, guid@, initializer),
            match create_outcome(old(self)@, parent@, type_tag@, guid@, initializer) {
                CreateOutcome::Ignored => made == Ok::<Creation, Error>(Creation::Ignored),
                CreateOutcome::Refused(text) => made matches Err(Error::ProtocolError(m)) && m@
                    == text,
                CreateOutcome::Inserted(_) => made == Ok::<Creation, Error>(Creation::Inserted),
            },
    {
        if !is_known_type(type_tag.as_str()) {
            return Ok(Creation::Ignored);
        }
        let at = match self.find_live(parent) {
            Some(at) => at,
            None => {
                let mut message = String::from_str("Parent object not found: ");
                message.append(parent);
                return Err(Error::ProtocolError(message));
            },
        };
        if self.find(guid.as_str()).is_some() {
            let mut message = String::from_str("Duplicate guid: ");
            message.append(guid.as_str());
            return Err(Error::ProtocolError(message));
        }
        let object = if same(type_tag.as_str(), "Browser") {
            match Browser::new(parent.to_owned(), type_tag, guid, initializer) {
                Ok(browser) => RemoteObject::Browser(browser),
                Err(error) => {
                    return Err(error);
                },
            }
        } else {
            RemoteObject::Generic(
                ChannelOwnerImpl::new(
                    ParentOrConnection::Parent(parent.to_owned()),
                    type_tag,
                    guid,
                    initializer,
                ),
            )
        };
        let ghost before = self@;
        let ghost rank = self.rank@.push(self.rank@[at as int] + 1);
        self.nodes.push(Node { object, parent: Some(at), disposed: None });
        self.rank = Ghost(rank);
        proof {
            let node = self@[before.len() as int];
            assert(self@ =~= before.push(node));
            assert(well_formed(self@)) by {
                assert forall|i: int, j: int| 0 <= i < j < self@.len() implies (
                #[trigger] self@[i]).guid() != (#[trigger] self@[j]).guid() by {
                    if j == before.len() {
                        assert(before[i].guid() != guid@);
                    }
                }
            }
        }
        Ok(Creation::Inserted)
    }

    /// Disposes the object with the guid and every descendant of it, each
    /// of them once, for `reason`. Answers whether the guid was present;
    /// where it was not, nothing changes.
    pub fn dispose(&mut self, guid: &str, reason: DisposeReason) -> (removed: bool)
        requires
            old(self).wf(),
        ensures
            final(self).wf(),
            removed == live(old(self)@, guid@),
            final(self)@ == disposed(old(self)@, guid@, reason),
    {
        let x = match self.find_live(guid) {
            Some(x) => x,
            None => {
                return false;
            },
        };
        let ghost before = self@;
        let mut i: usize = 0;
        while i < self.nodes.len()
            invariant
                i <= self.nodes.len(),
                self.nodes.len() == before.len(),
                self.linked(),
                forall|k: int|
                    0 <= k < before.len() ==> (#[trigger] self@[k]).parent == before[k].parent,
                forall|k: int|
                    0 <= k < i ==> #[trigger] self@[k] == without_subtree(before, x as int, reason)[k],
                forall|k: int| i <= k < before.len() ==> #[trigger] self@[k] == before[k],
            decreases self.nodes.len() - i,
        {
            let within = self.is_within(i, x);
            proof {
                lemma_subtree_same_parents(self@, before, i as int, x as int);
            }
            let ghost earlier = self@;
            if within && self.nodes[i].disposed.is_none() {
                self.nodes[i].disposed = Some(reason);
            }
            proof {
                assert forall|k: int| 0 <= k < before.len() && k != i implies #[trigger] self@[k]
                    == earlier[k] by {}
                assert(earlier[i as int] == before[i as int]);
                assert(self@[i as int] == without_subtree(before, x as int, reason)[i as int]);
            }
            i += 1;
        }
        proof {
            assert(self@ =~= without_subtree(before, x as int, reason));
            lemma_without_subtree_well_formed(before, x as int, reason);
        }
        true
    }

    /// Hangs `child`, with its subtree, under `parent`: see
    /// [`adopted`]. A child is never hung under a parent that is not
    /// present: it is disposed instead, with its descendants. An adoption
    /// by the child itself or by one of its descendants is refused as a
    /// protocol error.
    pub fn adopt(&mut self, parent: &str, child: &str) -> (made: Result<Adoption, Error>)
        requires
            old(self).wf(),
        ensures
            final(self).wf(),
            final(self)@ == adopted(old(self)@, parent@, child@),
            match adopt_outcome(old(self)@, parent@, child@) {
                AdoptOutcome::Dropped => made == Ok::<Adoption, Error>(Adoption::Dropped),
                AdoptOutcome::Orphaned => made == Ok::<Adoption, Error>(Adoption::Orphaned),
                AdoptOutcome::Circular => made matches Err(Error::ProtocolError(m)) && m@
                    == "Adoption would close a circle: "@ + child@,
                AdoptOutcome::Adopted => made == Ok::<Adoption, Error>(Adoption::Adopted),
            },
    {
        let at = match self.find_live(child) {
            Some(at) => at,
            None => {
                return Ok(Adoption::Dropped);
            },
        };
        let to = match self.find_live(parent) {
            Some(to) => to,
            None => {
                self.dispose(child, DisposeReason::Closed);
                return Ok(Adoption::Orphaned);
            },
        };
        if self.is_within(to, at) {
            let mut message = String::from_str("Adoption would close a circle: ");
            message.append(child);
            return Err(Error::ProtocolError(message));
        }
        let ghost before = self@;
        let ghost old_rank = self.rank@;
        let ghost rank = Seq::new(
            old_rank.len(),
            |i: int|
                if in_subtree(before, i, at as int) {
                    old_rank[i] + old_rank[to as int] + 1
                } else {
                    old_rank[i]
                },
        );
        self.nodes[at].object.set_parent(parent.to_owned());
        self.nodes[at].parent = Some(to);
        self.rank = Ghost(rank);
        proof {
            assert(self@ =~= adopted(before, parent@, child@));
            lemma_adopted_well_formed(before, parent@, child@);
            assert(ancestor(before, at as int, 0) == Some(at as int));
            assert(in_subtree(before, at as int, at as int));
            assert forall|i: int| 0 <= i < self.nodes@.len() implies match (
            #[trigger] self.nodes@[i]).parent {
                Some(p) => p < self.nodes@.len() && self.rank@[p as int] < self.rank@[i],
                None => true,
            } by {
                let _ = before[i];
                if i != at {
                    match before[i].parent {
                        Some(q) => {
                            if in_subtree(before, i, at as int) {
                                lemma_parent_in_subtree(before, i, at as int);
                            } else if in_subtree(before, q, at as int) {
                                lemma_child_in_subtree(before, i, at as int);
                            }
                        },
                        None => {},
                    }
                }
            }
        }
        Ok(Adoption::Adopted)
    }

    /// Disposes every object, the root too: what is left of the registry
    /// when the connection ends.
    pub fn teardown(&mut self)
        requires
            old(self).wf(),
        ensures
            final(self).wf(),
            final(self)@.len() == old(self)@.len(),
            forall|i: int|
                0 <= i < old(self)@.len() ==> #[trigger] final(self)@[i] == old(self)@[i].retired(
                    DisposeReason::Closed,
                ),
    {
        let ghost before = self@;
        let mut i: usize = 0;
        while i < self.nodes.len()
            invariant
                i <= self.nodes.len(),
                self.nodes.len() == before.len(),
                self.linked(),
                forall|k: int|
                    0 <= k < i ==> #[trigger] self@[k] == before[k].retired(DisposeReason::Closed),
                forall|k: int| i <= k < before.len() ==> #[trigger] self@[k] == before[k],
            decreases self.nodes.len() - i,
        {
            let ghost earlier = self@;
            if self.nodes[i].disposed.is_none() {
                self.nodes[i].disposed = Some(DisposeReason::Closed);
            }
            proof {
                assert forall|k: int| 0 <= k < before.len() && k != i implies #[trigger] self@[k]
                    == earlier[k] by {}
                assert(earlier[i as int] == before[i as int]);
                assert(self@[i as int] == before[i as int].retired(DisposeReason::Closed));
            }
            i += 1;
        }
        proof {
            assert forall|i: int, j: int| 0 <= i < j < self@.len() implies (#[trigger] self@[i]).guid()
                != (#[trigger] self@[j]).guid() by {
                assert(before[i].guid() != before[j].guid());
            }
            assert forall|i: int| 0 <= i < self@.len() implies match (#[trigger] self@[i]).parent {
                Some(p) => {
                    &&& 0 <= p < self@.len()
                    &&& self@[i].is_live() ==> self@[p].is_live()
                    &&& self@[i].object.base().parent == Some(self@[p].guid())
                },
                None => self@[i].object.base().parent is None,
            } by {
                let _ = before[i];
            }
        }
    }
}

} // verus!
