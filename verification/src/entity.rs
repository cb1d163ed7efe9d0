//! What it takes to be persisted: an optional identity, a node label, and a
//! way back from the nodes of a result row.

use vstd::prelude::*;
use crate::graph::{GraphNode, GraphRelationship, GraphValue};
use crate::text::{decimal, i64_to_string, signed_decimal};
use crate::timestamp::Timestamp;

verus! {

/// Why a result row could not be turned into an entity.
#[derive(Clone, Copy, Debug, PartialEq, Eq, Structural)]
pub enum DecodeError {
    /// The row holds no node with the entity's label.
    NoNodes,
    /// The row holds this many nodes with the entity's label, not one.
    UnusualNumberOfNodes(usize),
}

/// The primary label of a node: its first, if it has any.
pub open spec fn primary_label(node: &GraphNode) -> Option<Seq<char>> {
    if node.labels@.len() > 0 {
        Some(node.labels@[0]@)
    } else {
        None
    }
}

/// The nodes among `nodes` whose primary label is `label`, in order.
pub open spec fn labelled(nodes: Seq<GraphNode>, label: Seq<char>) -> Seq<GraphNode>
    decreases nodes.len(),
{
    if nodes.len() == 0 {
        Seq::empty()
    } else if primary_label(&nodes.last()) == Some(label) {
        labelled(nodes.drop_last(), label).push(nodes.last())
    } else {
        labelled(nodes.drop_last(), label)
    }
}

/// The relationships among `relationships` whose type is `name`, in order.
pub open spec fn typed(relationships: Seq<GraphRelationship>, name: Seq<char>) -> Seq<
    GraphRelationship,
>
    decreases relationships.len(),
{
    if relationships.len() == 0 {
        Seq::empty()
    } else if relationships.last().rel_type@ == name {
        typed(relationships.drop_last(), name).push(relationships.last())
    } else {
        typed(relationships.drop_last(), name)
    }
}

/// The nodes of a row, in order.
pub open spec fn row_nodes(row: Seq<GraphValue>) -> Seq<GraphNode>
    decreases row.len(),
{
    if row.len() == 0 {
        Seq::empty()
    } else {
        match row.last() {
            GraphValue::Node(n) => row_nodes(row.drop_last()).push(n),
            _ => row_nodes(row.drop_last()),
        }
    }
}

/// The relationships of a row, in order.
pub open spec fn row_relationships(row: Seq<GraphValue>) -> Seq<GraphRelationship>
    decreases row.len(),
{
    if row.len() == 0 {
        Seq::empty()
    } else {
        match row.last() {
            GraphValue::Relationship(r) => row_relationships(row.drop_last()).push(r),
            _ => row_relationships(row.drop_last()),
        }
    }
}

/// A result row sorted by kind. The nodes with a given primary label, and the
/// relationships of a given type, are its groups.
#[derive(Debug)]
pub struct FromInput {
    pub nodes: Vec<GraphNode>,
    pub relationships: Vec<GraphRelationship>,
}

impl FromInput {
    /// Sorts the fields of a row into nodes and relationships; other values
    /// are dropped.
    pub fn from_row(row: Vec<GraphValue>) -> (r: FromInput)
        ensures
            r.nodes@ == row_nodes(row@),
            r.relationships@ == row_relationships(row@),
    {
        let ghost whole = row@;
        let mut rest = row;
        let mut nodes_rev: Vec<GraphNode> = Vec::new();
        let mut relationships_rev: Vec<GraphRelationship> = Vec::new();
        while rest.len() > 0
            invariant
                rest@.len() <= whole.len(),
                rest@ == whole.take(rest@.len() as int),
                row_nodes(whole) == row_nodes(rest@) + nodes_rev@.reverse(),
                row_relationships(whole) == row_relationships(rest@) + relationships_rev@.reverse(),
            decreases rest.len(),
        {
            let ghost before = rest@;
            let ghost nodes_before = nodes_rev@;
            let ghost relationships_before = relationships_rev@;
            let value = rest.pop().unwrap();
            proof {
                assert(rest@ == before.drop_last());
                assert(value == before.last());
                assert(rest@ =~= whole.take(rest@.len() as int));
            }
            match value {
                GraphValue::Node(n) => {
                    nodes_rev.push(n);
                    proof {
                        assert(nodes_rev@.reverse() =~= seq![n] + nodes_before.reverse());
                        assert(row_nodes(before) + nodes_before.reverse() =~= row_nodes(rest@)
                            + nodes_rev@.reverse());
                    }
                },
                GraphValue::Relationship(r) => {
                    relationships_rev.push(r);
                    proof {
                        assert(relationships_rev@.reverse() =~= seq![r]
                            + relationships_before.reverse());
                        assert(row_relationships(before) + relationships_before.reverse()
                            =~= row_relationships(rest@) + relationships_rev@.reverse());
                    }
                },
                GraphValue::Other => {},
            }
        }
        let nodes = reversed(nodes_rev);
        let relationships = reversed(relationships_rev);
        proof {
            assert(whole.take(0) =~= Seq::empty());
            assert(nodes@ =~= row_nodes(whole));
            assert(relationships@ =~= row_relationships(whole));
        }
        FromInput { nodes, relationships }
    }

    /// The group of nodes whose primary label is `label`.
    pub fn nodes_labelled(&self, label: &str) -> (r: Vec<&GraphNode>)
        ensures
            r@.len() == labelled(self.nodes@, label@).len(),
            forall|i: int| 0 <= i < r@.len() ==> *(#[trigger] r@[i]) == labelled(self.nodes@, label@)[i],
    {
        group_labelled(&self.nodes, label)
    }

    /// The group of relationships whose type is `name`.
    pub fn relationships_typed(&self, name: &str) -> (r: Vec<&GraphRelationship>)
        ensures
            r@.len() == typed(self.relationships@, name@).len(),
            forall|i: int|
                0 <= i < r@.len() ==> *(#[trigger] r@[i]) == typed(self.relationships@, name@)[i],
    {
        group_typed(&self.relationships, name)
    }
}

/// The relationships among `relationships` whose type is `name`, in order.
pub fn group_typed<'a>(relationships: &'a Vec<GraphRelationship>, name: &str) -> (r: Vec<
    &'a GraphRelationship,
>)
    ensures
        r@.len() == typed(relationships@, name@).len(),
        forall|i: int|
            0 <= i < r@.len() ==> *(#[trigger] r@[i]) == typed(relationships@, name@)[i],
{
    let wanted = String::from_str(name);
    let mut out: Vec<&'a GraphRelationship> = Vec::new();
    let mut i: usize = 0;
    while i < relationships.len()
        invariant
            i <= relationships.len(),
            wanted@ == name@,
            out@.len() == typed(relationships@.take(i as int), name@).len(),
            forall|k: int|
                0 <= k < out@.len() ==> *(#[trigger] out@[k]) == typed(
                    relationships@.take(i as int),
                    name@,
                )[k],
        decreases relationships.len() - i,
    {
        proof {
            assert(relationships@.take(i as int + 1).drop_last() =~= relationships@.take(i as int));
            assert(relationships@.take(i as int + 1).last() == relationships@[i as int]);
        }
        let relationship = &relationships[i];
        if relationship.rel_type == wanted {
            out.push(relationship);
        }
        i = i + 1;
    }
    proof {
        assert(relationships@.take(i as int) =~= relationships@);
    }
    out
}

/// The items of `items` in the opposite order.
pub fn reversed<T>(items: Vec<T>) -> (r: Vec<T>)
    ensures
        r@ == items@.reverse(),
{
    let ghost whole = items@;
    let mut rest = items;
    let mut out: Vec<T> = Vec::new();
    while rest.len() > 0
        invariant
            rest@.len() + out@.len() == whole.len(),
            rest@ == whole.take(rest@.len() as int),
            out@ == whole.skip(rest@.len() as int).reverse(),
        decreases rest.len(),
    {
        let ghost before = rest@;
        let ghost out_before = out@;
        let item = rest.pop().unwrap();
        out.push(item);
        proof {
            assert(rest@ =~= whole.take(rest@.len() as int));
            assert(out@ =~= whole.skip(rest@.len() as int).reverse());
        }
    }
    proof {
        assert(whole.skip(0) =~= whole);
    }
    out
}

/// The nodes among `nodes` whose primary label is `label`, in order.
pub fn group_labelled<'a>(nodes: &'a Vec<GraphNode>, label: &str) -> (r: Vec<&'a GraphNode>)
    ensures
        r@.len() == labelled(nodes@, label@).len(),
        forall|i: int| 0 <= i < r@.len() ==> *(#[trigger] r@[i]) == labelled(nodes@, label@)[i],
{
    let wanted = String::from_str(label);
    let mut out: Vec<&'a GraphNode> = Vec::new();
    let mut i: usize = 0;
    while i < nodes.len()
        invariant
            i <= nodes.len(),
            wanted@ == label@,
            out@.len() == labelled(nodes@.take(i as int), label@).len(),
            forall|k: int|
                0 <= k < out@.len() ==> *(#[trigger] out@[k]) == labelled(
                    nodes@.take(i as int),
                    label@,
                )[k],
        decreases nodes.len() - i,
    {
        proof {
            assert(nodes@.take(i as int + 1).drop_last() =~= nodes@.take(i as int));
            assert(nodes@.take(i as int + 1).last() == nodes@[i as int]);
        }
        let node = &nodes[i];
        if node.labels.len() > 0 && node.labels[0] == wanted {
            out.push(node);
        }
        i = i + 1;
    }
    proof {
        assert(nodes@.take(i as int) =~= nodes@);
    }
    out
}

/// An identity that the store assigns: it converts to and from the store's
/// own integers and can be written into statements.
pub trait Id: Sized + Copy {
    /// The store's integer for this identity.
    spec fn identity(&self) -> int;

    /// The identity that stands for the store's integer, where the type
    /// has one.
    spec fn of_identity(identity: i64) -> Option<Self>;

    /// Converts from the store's integer; `None` where the type has no
    /// identity for it.
    fn from_identity(identity: i64) -> (r: Option<Self>)
        ensures
            r == Self::of_identity(identity),
            r matches Some(id) ==> id.identity() == identity,
    ;

    /// Converts to the store's integer.
    fn to_identity(&self) -> (r: i64)
        ensures
            r == self.identity(),
    ;

    /// Writes the identity in decimal.
    fn to_text(&self) -> (r: String)
        ensures
            r@ == signed_decimal(self.identity()),
    ;
}

impl Id for u32 {
    open spec fn identity(&self) -> int {
        *self as int
    }

    open spec fn of_identity(identity: i64) -> Option<u32> {
        if 0 <= identity <= u32::MAX {
            Some(identity as u32)
        } else {
            None
        }
    }

    fn from_identity(identity: i64) -> (r: Option<u32>) {
        if 0 <= identity && identity <= 4294967295 {
            Some(identity as u32)
        } else {
            None
        }
    }

    fn to_identity(&self) -> (r: i64) {
        *self as i64
    }

    fn to_text(&self) -> (r: String) {
        i64_to_string(*self as i64)
    }
}

/// A persistable domain type: it may carry the identity the store gave it,
/// has a fixed node label, and can be rebuilt from what the store returns.
pub trait Entity: Sized {
    /// The label of the nodes that hold entities of this type.
    spec fn tag() -> Seq<char>;

    /// The identity, present once the store has assigned one.
    spec fn id(&self) -> Option<u32>;

    /// `entity` carries the fields that `node` decodes to, with `now`
    /// standing in for timestamps that the node lacks.
    spec fn decoded(node: &GraphNode, now: Timestamp, entity: &Self) -> bool;

    /// `entity` is what a row with the given nodes decodes to, `own` being
    /// the one node among them that carries this type's label.
    spec fn composed(nodes: Seq<GraphNode>, own: &GraphNode, now: Timestamp, entity: &Self) -> bool;

    fn get_id(&self) -> (r: &Option<u32>)
        ensures
            *r == self.id(),
    ;

    fn get_node_label() -> (r: &'static str)
        ensures
            r@ == Self::tag(),
    ;

    /// Rebuilds an entity from a stored node. The identity is the node's; a
    /// missing or mistyped property gives the field its default.
    fn from_node(node: &GraphNode, now: Timestamp) -> (r: Self)
        ensures
            r.id() == Some(node.identity as u32),
            Self::decoded(node, now, &r),
    ;

    /// Rebuilds an entity from a grouped row, which must hold exactly one
    /// node with this type's label.
    fn try_from_input(input: &FromInput, now: Timestamp) -> (r: Result<Self, DecodeError>)
        ensures
            match r {
                Ok(e) => {
                    &&& labelled(input.nodes@, Self::tag()).len() == 1
                    &&& e.id() == Some(labelled(input.nodes@, Self::tag())[0].identity as u32)
                    &&& Self::composed(
                        input.nodes@,
                        &labelled(input.nodes@, Self::tag())[0],
                        now,
                        &e,
                    )
                },
                Err(DecodeError::NoNodes) => labelled(input.nodes@, Self::tag()).len() == 0,
                Err(DecodeError::UnusualNumberOfNodes(n)) => {
                    &&& n == labelled(input.nodes@, Self::tag()).len()
                    &&& n > 1
                },
            },
            labelled(input.nodes@, Self::tag()).len() > 1 ==> r is Err,
    ;
}

/// Names an entity in an error: its node label and its identity, if any.
#[derive(Debug)]
pub struct EntityRef {
    pub label: String,
    pub id: Option<u32>,
}

/// True when `r` names an entity of type `E` with identity `id`.
pub open spec fn names<E: Entity>(r: &EntityRef, id: Option<u32>) -> bool {
    r.label@ == E::tag() && r.id == id
}

/// The reference that names `entity`.
pub fn entity_ref<E: Entity>(entity: &E) -> (r: EntityRef)
    ensures
        names::<E>(&r, entity.id()),
{
    EntityRef { label: String::from_str(E::get_node_label()), id: *entity.get_id() }
}

/// The written form of an identity: its decimal digits, or `none`.
pub open spec fn id_text(id: Option<u32>) -> Seq<char> {
    match id {
        Some(n) => decimal(n as nat),
        None => "none"@,
    }
}

/// The written form of an entity: `[Label; id: 7)]`, or `[Label; id: none)]`
/// before it is persisted.
pub open spec fn entity_text(tag: Seq<char>, id: Option<u32>) -> Seq<char> {
    "["@ + tag + "; id: "@ + id_text(id) + ")]"@
}

/// Writes an identity as `id_text` has it.
pub fn id_to_string(id: &Option<u32>) -> (r: String)
    ensures
        r@ == id_text(*id),
{
    match id {
        Some(n) => n.to_text(),
        None => String::from_str("none"),
    }
}

/// Writes an entity as `entity_text` has it.
pub fn fmt_entity<E: Entity>(entity: &E) -> (r: String)
    ensures
        r@ == entity_text(E::tag(), entity.id()),
{
    let mut out = String::from_str("[");
    out.append(E::get_node_label());
    out.append("; id: ");
    let id_str = id_to_string(entity.get_id());
    out.append(id_str.as_str());
    out.append(")]");
    out
}

impl EntityRef {
    /// The written form of the entity that this reference names.
    pub fn to_text(&self) -> (r: String)
        ensures
            r@ == entity_text(self.label@, self.id),
    {
        let mut out = String::from_str("[");
        out.append(self.label.as_str());
        out.append("; id: ");
        let id_str = id_to_string(&self.id);
        out.append(id_str.as_str());
        out.append(")]");
        out
    }
}

} // verus!
