//! The generic operations on the store: what each sends, and what it makes
//! of the rows that come back.

use vstd::prelude::*;
use crate::entity::{
    entity_ref,
    labelled,
    names,
    primary_label,
    Id,
    row_nodes,
    row_relationships,
    DecodeError,
    Entity,
    FromInput,
};
use crate::error::{Action, DbActionError};
use crate::graph::{GraphNode, GraphRelationship, GraphValue, Properties, PropertyValue, Scalar};
use crate::relation::{create_text, params_text, Relation};
use crate::text::signed_decimal;
use crate::timestamp::Timestamp;

verus! {

/// One statement for the store, ready to be sent.
#[derive(Debug)]
pub struct Operation {
    /// The query text.
    pub statement: String,
    /// The values bound to the `$name` placeholders of the text.
    pub params: Option<Properties>,
    /// Whether the statement changes the store and so runs in a transaction.
    pub is_write: bool,
    /// How many rows to pull; -1 for all.
    pub pull_limit: i64,
}

/// The bindings of an operation; none where it has no parameters.
pub open spec fn bound(params: Option<Properties>) -> Seq<(Seq<char>, Scalar)> {
    match params {
        Some(p) => p.bindings(),
        None => Seq::empty(),
    }
}

/// The statement that fetches the node of an entity by its identity.
pub open spec fn fetch_by_id_text(tag: Seq<char>) -> Seq<char> {
    "MATCH (e:"@ + tag + ") WHERE id(e) = $id RETURN e"@
}

/// The statement that fetches every node with a label.
pub open spec fn fetch_all_text(tag: Seq<char>) -> Seq<char> {
    "MATCH (e:"@ + tag + ") RETURN e"@
}

/// The statement that removes a node together with its edges.
pub open spec fn delete_text(tag: Seq<char>) -> Seq<char> {
    "MATCH (p:"@ + tag + ") WHERE id(p) = $id DETACH DELETE p"@
}

/// The pattern of an edge `name` between nodes with two labels.
pub open spec fn edge_pattern_text(source_tag: Seq<char>, name: Seq<char>, target_tag: Seq<char>) -> Seq<
    char,
> {
    "MATCH (s:"@ + source_tag + ")-[r:"@ + name + "]-(t:"@ + target_tag + ")"@
}

/// The statement that fetches the edges `name` of one source node, with the
/// nodes at both ends.
pub open spec fn relations_of_node_text(
    source_tag: Seq<char>,
    name: Seq<char>,
    target_tag: Seq<char>,
) -> Seq<char> {
    edge_pattern_text(source_tag, name, target_tag) + " WHERE id(s) = $id RETURN s,t,r"@
}

/// The statement that fetches every edge `name` between nodes with the two
/// labels, with the nodes at both ends.
pub open spec fn relations_of_type_text(
    source_tag: Seq<char>,
    name: Seq<char>,
    target_tag: Seq<char>,
) -> Seq<char> {
    edge_pattern_text(source_tag, name, target_tag) + " RETURN s,t,r"@
}

/// The statement that removes the edge `name` between two nodes.
pub open spec fn delete_relation_text(
    source_tag: Seq<char>,
    name: Seq<char>,
    target_tag: Seq<char>,
    source: u32,
    target: u32,
) -> Seq<char> {
    edge_pattern_text(source_tag, name, target_tag) + " WHERE id(s) = "@ + signed_decimal(
        source as int,
    ) + " AND id(t) = "@ + signed_decimal(target as int) + " DELETE r"@
}

/// Writes the pattern of an edge `name` between nodes of `S` and of `T`.
pub fn edge_pattern<S: Entity, T: Entity>(name: &String) -> (r: String)
    ensures
        r@ == edge_pattern_text(S::tag(), name@, T::tag()),
{
    let mut out = String::from_str("MATCH (s:");
    out.append(S::get_node_label());
    out.append(")-[r:");
    out.append(name.as_str());
    out.append("]-(t:");
    out.append(T::get_node_label());
    out.append(")");
    out
}

/// Fetches the entity with identity `id`: a read that pulls every row.
pub fn fetch_by_id<E: Entity>(id: &u32) -> (op: Operation)
    ensures
        op.statement@ == fetch_by_id_text(E::tag()),
        op.params is Some,
        bound(op.params) == seq![("id"@, Scalar::Integer(*id as i64))],
        !op.is_write,
        op.pull_limit == -1,
{
    let mut statement = String::from_str("MATCH (e:");
    statement.append(E::get_node_label());
    statement.append(") WHERE id(e) = $id RETURN e");
    let params = Properties::new().bind("id", PropertyValue::Integer(id.to_identity()));
    Operation { statement, params: Some(params), is_write: false, pull_limit: -1 }
}

/// Fetches every entity of a type: a read that pulls every row.
pub fn fetch_all<E: Entity>() -> (op: Operation)
    ensures
        op.statement@ == fetch_all_text(E::tag()),
        op.params is Some,
        bound(op.params).len() == 0,
        !op.is_write,
        op.pull_limit == -1,
{
    let mut statement = String::from_str("MATCH (e:");
    statement.append(E::get_node_label());
    statement.append(") RETURN e");
    Operation { statement, params: Some(Properties::new()), is_write: false, pull_limit: -1 }
}

/// Runs the caller's query: a read that pulls every row.
pub fn fetch(statement: String, params: Properties) -> (op: Operation)
    ensures
        op.statement == statement,
        op.params == Some(params),
        !op.is_write,
        op.pull_limit == -1,
{
    Operation { statement, params: Some(params), is_write: false, pull_limit: -1 }
}

/// Runs the caller's statement, which creates a node and returns it: a write
/// that pulls one row.
pub fn create(statement: String, params: Properties) -> (op: Operation)
    ensures
        op.statement == statement,
        op.params == Some(params),
        op.is_write,
        op.pull_limit == 1,
{
    Operation { statement, params: Some(params), is_write: true, pull_limit: 1 }
}

/// Runs the caller's statement, which changes a node and returns it: a write
/// that pulls one row.
pub fn update(statement: String, params: Properties) -> (op: Operation)
    ensures
        op.statement == statement,
        op.params == Some(params),
        op.is_write,
        op.pull_limit == 1,
{
    Operation { statement, params: Some(params), is_write: true, pull_limit: 1 }
}

/// Removes the node of `entity` and the edges at it: a write that pulls
/// every row. Refused, before anything is sent, for an entity that was never
/// persisted.
pub fn delete<E: Entity>(entity: &E) -> (r: Result<Operation, DbActionError>)
    ensures
        match r {
            Ok(op) => {
                &&& entity.id() is Some
                &&& op.statement@ == delete_text(E::tag())
                &&& op.params is Some
                &&& bound(op.params) == seq![
                    ("id"@, Scalar::Integer(entity.id().unwrap() as i64)),
                ]
                &&& op.is_write
                &&& op.pull_limit == -1
            },
            Err(DbActionError::Unpersisted { entity: named, action }) => {
                &&& entity.id() is None
                &&& names::<E>(&named, None)
                &&& action == Action::Delete
            },
            Err(_) => false,
        },
        entity.id() is None ==> (r matches Err(e) && e.is_precondition()),
{
    match entity.get_id() {
        None => Err(DbActionError::Unpersisted { entity: entity_ref(entity), action: Action::Delete }),
        Some(id) => {
            let mut statement = String::from_str("MATCH (p:");
            statement.append(E::get_node_label());
            statement.append(") WHERE id(p) = $id DETACH DELETE p");
            let params = Properties::new().bind("id", PropertyValue::Integer(id.to_identity()));
            Ok(Operation { statement, params: Some(params), is_write: true, pull_limit: -1 })
        },
    }
}

/// What `create_relationship` answers for its arguments.
pub open spec fn creates_relationship<S: Entity, T: Entity>(
    source: S,
    target: T,
    name: Seq<char>,
    params_opt: Option<Properties>,
    r: Result<(Operation, Relation<S, T>), DbActionError>,
) -> bool {
    match r {
        Ok((op, relation)) => {
            &&& source.id() is Some
            &&& target.id() is Some
            &&& relation.source() == source
            &&& relation.target() == target
            &&& relation.edge_name() == name
            &&& relation.params() == params_opt
            &&& op.statement@ == create_text(
                S::tag(),
                T::tag(),
                source.id().unwrap(),
                target.id().unwrap(),
                name,
                params_text(params_opt),
            )
            &&& op.params is None
            &&& op.is_write
            &&& op.pull_limit == 1
        },
        Err(DbActionError::UnpersistedEndpoints { source: from, target: to }) => {
            &&& source.id() is None || target.id() is None
            &&& names::<S>(&from, source.id())
            &&& names::<T>(&to, target.id())
        },
        Err(_) => false,
    }
}

/// A relation with an end that was never persisted is refused as a broken
/// precondition, and no operation is made that could be sent.
pub proof fn lemma_unpersisted_end_refused<S: Entity, T: Entity>(
    source: S,
    target: T,
    name: Seq<char>,
    params_opt: Option<Properties>,
    r: Result<(Operation, Relation<S, T>), DbActionError>,
)
    requires
        creates_relationship(source, target, name, params_opt, r),
        source.id() is None || target.id() is None,
    ensures
        match r {
            Err(e) => e.is_precondition(),
            Ok(_) => false,
        },
{
}

/// Creates the edge `name` from `source` to `target`: a write that pulls one
/// row. Gives the operation together with the relation it is about. Refused,
/// before anything is sent, where either end was never persisted.
pub fn create_relationship<S: Entity, T: Entity>(
    source: S,
    target: T,
    name: &String,
    params_opt: Option<Properties>,
) -> (r: Result<(Operation, Relation<S, T>), DbActionError>)
    ensures
        creates_relationship(source, target, name@, params_opt, r),
{
    match Relation::new(source, target, name.clone(), params_opt) {
        Err(e) => Err(e),
        Ok(relation) => {
            let statement = relation.get_create_statement();
            Ok((Operation { statement, params: None, is_write: true, pull_limit: 1 }, relation))
        },
    }
}

/// What `fetch_relations_of_node_of_type` answers for its arguments.
pub open spec fn fetches_relations_of_node<S: Entity, T: Entity>(
    source: &S,
    name: Seq<char>,
    r: Result<Operation, DbActionError>,
) -> bool {
    match r {
        Ok(op) => {
            &&& source.id() is Some
            &&& op.statement@ == relations_of_node_text(S::tag(), name, T::tag())
            &&& op.params is Some
            &&& bound(op.params) == seq![
                ("id"@, Scalar::Integer(source.id().unwrap() as i64)),
            ]
            &&& !op.is_write
            &&& op.pull_limit == -1
        },
        Err(DbActionError::UnpersistedSource(named)) => {
            &&& source.id() is None
            &&& names::<S>(&named, None)
        },
        Err(_) => false,
    }
}

/// Fetches the edges `name` between `source` and nodes of type `T`, with the
/// nodes at both ends: a read that pulls every row. Refused for a source that
/// was never persisted.
pub fn fetch_relations_of_node_of_type<S: Entity, T: Entity>(source: &S, name: &String) -> (r:
    Result<Operation, DbActionError>)
    ensures
        fetches_relations_of_node::<S, T>(source, name@, r),
{
    match source.get_id() {
        None => Err(DbActionError::UnpersistedSource(entity_ref(source))),
        Some(id) => {
            let mut statement = edge_pattern::<S, T>(name);
            statement.append(" WHERE id(s) = $id RETURN s,t,r");
            let params = Properties::new().bind("id", PropertyValue::Integer(id.to_identity()));
            Ok(Operation { statement, params: Some(params), is_write: false, pull_limit: -1 })
        },
    }
}

/// Fetches every edge `name` between nodes of type `S` and of type `T`, with
/// the nodes at both ends: a read that pulls every row.
pub fn fetch_relations_of_type<S: Entity, T: Entity>(name: &String) -> (op: Operation)
    ensures
        op.statement@ == relations_of_type_text(S::tag(), name@, T::tag()),
        op.params is Some,
        bound(op.params).len() == 0,
        !op.is_write,
        op.pull_limit == -1,
{
    let mut statement = edge_pattern::<S, T>(name);
    statement.append(" RETURN s,t,r");
    Operation { statement, params: Some(Properties::new()), is_write: false, pull_limit: -1 }
}

/// Fetches one edge `name` between nodes of type `S` and of type `T`: a read
/// that pulls one row.
pub fn fetch_single_relation<S: Entity, T: Entity>(name: &String) -> (op: Operation)
    ensures
        op.statement@ == relations_of_type_text(S::tag(), name@, T::tag()),
        op.params is Some,
        bound(op.params).len() == 0,
        !op.is_write,
        op.pull_limit == 1,
{
    let mut statement = edge_pattern::<S, T>(name);
    statement.append(" RETURN s,t,r");
    Operation { statement, params: Some(Properties::new()), is_write: false, pull_limit: 1 }
}

/// What `delete_relation` answers for its arguments.
pub open spec fn deletes_relation<S: Entity, T: Entity>(
    source: &S,
    target: &T,
    name: Seq<char>,
    r: Result<Operation, DbActionError>,
) -> bool {
    match r {
        Ok(op) => {
            &&& source.id() is Some
            &&& target.id() is Some
            &&& op.statement@ == delete_relation_text(
                S::tag(),
                name,
                T::tag(),
                source.id().unwrap(),
                target.id().unwrap(),
            )
            &&& op.params is Some
            &&& bound(op.params).len() == 0
            &&& op.is_write
            &&& op.pull_limit == -1
        },
        Err(DbActionError::UnpersistedSource(named)) => {
            &&& source.id() is None
            &&& names::<S>(&named, None)
        },
        Err(DbActionError::UnpersistedTarget(named)) => {
            &&& source.id() is Some
            &&& target.id() is None
            &&& names::<T>(&named, None)
        },
        Err(_) => false,
    }
}

/// The removal of a relation with an end that was never persisted is refused
/// as a broken precondition, and no operation is made that could be sent.
pub proof fn lemma_unpersisted_removal_refused<S: Entity, T: Entity>(
    source: &S,
    target: &T,
    name: Seq<char>,
    r: Result<Operation, DbActionError>,
)
    requires
        deletes_relation::<S, T>(source, target, name, r),
        source.id() is None || target.id() is None,
    ensures
        match r {
            Err(e) => e.is_precondition(),
            Ok(_) => false,
        },
{
}

/// Removes the edge `name` between `source` and `target`: a write that pulls
/// every row. Refused, before anything is sent, where either end was never
/// persisted; the source is looked at first.
pub fn delete_relation<S: Entity, T: Entity>(source: &S, target: &T, name: &String) -> (r: Result<
    Operation,
    DbActionError,
>)
    ensures
        deletes_relation::<S, T>(source, target, name@, r),
{
    let source_id = match source.get_id() {
        None => {
            return Err(DbActionError::UnpersistedSource(entity_ref(source)));
        },
        Some(id) => *id,
    };
    let target_id = match target.get_id() {
        None => {
            return Err(DbActionError::UnpersistedTarget(entity_ref(target)));
        },
        Some(id) => *id,
    };
    let mut statement = edge_pattern::<S, T>(name);
    statement.append(" WHERE id(s) = ");
    statement.append(source_id.to_text().as_str());
    statement.append(" AND id(t) = ");
    statement.append(target_id.to_text().as_str());
    statement.append(" DELETE r");
    Ok(Operation { statement, params: Some(Properties::new()), is_write: true, pull_limit: -1 })
}

/// True when a row holds exactly one node with the label of `E`.
pub open spec fn row_ok<E: Entity>(row: Seq<GraphValue>) -> bool {
    labelled(row_nodes(row), E::tag()).len() == 1
}

/// True when `cause` says what keeps a row from being an `E`.
pub open spec fn row_fault<E: Entity>(row: Seq<GraphValue>, cause: DecodeError) -> bool {
    match cause {
        DecodeError::NoNodes => labelled(row_nodes(row), E::tag()).len() == 0,
        DecodeError::UnusualNumberOfNodes(n) => n == labelled(row_nodes(row), E::tag()).len() && n
            > 1,
    }
}

/// True when the row holds one node of the type `E` and `entity` is what
/// the row decodes to.
pub open spec fn row_entity<E: Entity>(row: Seq<GraphValue>, now: Timestamp, entity: &E) -> bool {
    let own = labelled(row_nodes(row), E::tag())[0];
    &&& row_ok::<E>(row)
    &&& entity.id() == Some(own.identity as u32)
    &&& E::composed(row_nodes(row), &own, now, entity)
}

/// True when `entities` are what the rows decode to, one for one.
pub open spec fn rows_entities<E: Entity>(
    records: Seq<Vec<GraphValue>>,
    now: Timestamp,
    entities: Seq<E>,
) -> bool {
    &&& entities.len() == records.len()
    &&& forall|i: int|
        0 <= i < entities.len() ==> row_entity::<E>(records[i]@, now, &#[trigger] entities[i])
}

/// True when `error` reports the first row that is no `E`.
pub open spec fn rows_fault<E: Entity>(records: Seq<Vec<GraphValue>>, error: DbActionError) -> bool {
    match error {
        DbActionError::Decode { label, row, cause } => {
            &&& label@ == E::tag()
            &&& row < records.len()
            &&& row_fault::<E>(records[row as int]@, cause)
            &&& forall|j: int| 0 <= j < row ==> row_ok::<E>(#[trigger] records[j]@)
        },
        _ => false,
    }
}

/// Decodes every row into an entity. One row that does not hold exactly one
/// node of the entity's type fails the whole; no rows give no entities.
pub fn pull_entities<E: Entity>(records: Vec<Vec<GraphValue>>, now: Timestamp) -> (r: Result<
    Vec<E>,
    DbActionError,
>)
    ensures
        match r {
            Ok(entities) => rows_entities::<E>(records@, now, entities@),
            Err(error) => rows_fault::<E>(records@, error),
        },
        records@.len() == 0 ==> (r matches Ok(none) && none@.len() == 0),
{
    let ghost whole = records@;
    let mut rest = records;
    let mut out: Vec<E> = Vec::new();
    let mut fault: Option<(usize, DecodeError)> = None;
    while rest.len() > 0
        invariant
            rest@.len() <= whole.len(),
            rest@ == whole.take(rest@.len() as int),
            match fault {
                None => {
                    &&& out@.len() == whole.len() - rest@.len()
                    &&& forall|j: int|
                        0 <= j < out@.len() ==> row_entity::<E>(
                            whole[rest@.len() + j]@,
                            now,
                            &#[trigger] out@[j],
                        )
                },
                Some((i, cause)) => {
                    &&& rest@.len() <= i < whole.len()
                    &&& row_fault::<E>(whole[i as int]@, cause)
                    &&& forall|j: int| rest@.len() <= j < i ==> row_ok::<E>(#[trigger] whole[j]@)
                },
            },
        decreases rest.len(),
    {
        let ghost k = rest@.len() as int;
        let ghost out_before = out@;
        let row = rest.pop().unwrap();
        proof {
            assert(row == whole[k - 1]);
            assert(rest@ =~= whole.take(k - 1));
        }
        let input = FromInput::from_row(row);
        match E::try_from_input(&input, now) {
            Ok(entity) => {
                proof {
                    assert(input.nodes@ == row_nodes(whole[k - 1]@));
                    assert(row_ok::<E>(whole[k - 1]@));
                    assert(row_entity::<E>(whole[k - 1]@, now, &entity));
                }
                if fault.is_none() {
                    let mut fresh: Vec<E> = Vec::new();
                    fresh.push(entity);
                    fresh.append(&mut out);
                    out = fresh;
                    proof {
                        assert(out@ =~= seq![entity] + out_before);
                        assert forall|j: int| 0 <= j < out@.len() implies row_entity::<E>(
                            whole[k - 1 + j]@,
                            now,
                            &#[trigger] out@[j],
                        ) by {
                            if j > 0 {
                                assert(out@[j] == out_before[j - 1]);
                                assert(whole[k - 1 + j] == whole[k + (j - 1)]);
                            } else {
                                assert(out@[0] == entity);
                            }
                        }
                    }
                } else {
                    proof {
                        let i = fault.unwrap().0;
                        assert forall|j: int| k - 1 <= j < i implies row_ok::<E>(
                            #[trigger] whole[j]@,
                        ) by {}
                    }
                }
            },
            Err(cause) => {
                proof {
                    assert(input.nodes@ == row_nodes(whole[k - 1]@));
                    assert(row_fault::<E>(whole[k - 1]@, cause));
                }
                fault = Some((rest.len(), cause));
            },
        }
    }
    proof {
        assert(whole.take(0) =~= Seq::empty());
    }
    match fault {
        None => Ok(out),
        Some((i, cause)) => Err(
            DbActionError::Decode { label: String::from_str(E::get_node_label()), row: i, cause },
        ),
    }
}

/// The entity of the last row, if there is any row.
pub fn fetch_single<E>(entities: Vec<E>) -> (r: Option<E>)
    ensures
        match r {
            Some(e) => entities@.len() > 0 && e == entities@.last(),
            None => entities@.len() == 0,
        },
{
    let mut entities = entities;
    entities.pop()
}

/// What a fetch by identity found: the entity of the last row, nothing
/// where no row came back, never an error for that.
pub fn fetch_by_id_result<E: Entity>(records: Vec<Vec<GraphValue>>, now: Timestamp) -> (r: Result<
    Option<E>,
    DbActionError,
>)
    ensures
        match r {
            Ok(Some(e)) => exists|entities: Seq<E>|
                rows_entities::<E>(records@, now, entities) && entities.len() > 0
                    && #[trigger] entities.last() == e,
            Ok(None) => records@.len() == 0,
            Err(error) => rows_fault::<E>(records@, error),
        },
        records@.len() == 0 ==> r matches Ok(None),
{
    match pull_entities::<E>(records, now) {
        Ok(entities) => Ok(fetch_single(entities)),
        Err(e) => Err(e),
    }
}

/// The entity that a create or update returned: that of the last row.
/// Without any row the action failed to return its entity.
pub fn returned_entity<E: Entity>(action: Action, records: Vec<Vec<GraphValue>>, now: Timestamp) -> (r:
    Result<E, DbActionError>)
    ensures
        match r {
            Ok(e) => exists|entities: Seq<E>|
                rows_entities::<E>(records@, now, entities) && entities.len() > 0
                    && #[trigger] entities.last() == e,
            Err(DbActionError::NoEntity(failed)) => failed == action && records@.len() == 0,
            Err(error) => rows_fault::<E>(records@, error),
        },
        r matches Ok(e) ==> e.id() is Some,
{
    match pull_entities::<E>(records, now) {
        Ok(entities) => {
            match fetch_single(entities) {
                Some(e) => Ok(e),
                None => Err(DbActionError::NoEntity(action)),
            }
        },
        Err(e) => Err(e),
    }
}

/// True when a row begins with a relationship.
pub open spec fn starts_with_relationship(row: Seq<GraphValue>) -> bool {
    row.len() > 0 && row[0] is Relationship
}

/// The type of the relationship that a value is; empty for other values.
pub open spec fn relationship_type(value: GraphValue) -> Seq<char> {
    match value {
        GraphValue::Relationship(r) => r.rel_type@,
        _ => Seq::empty(),
    }
}

/// The relation that an action on one edge returned, between the two
/// entities that the caller holds: it takes its name from the last row.
/// Without any row the action failed to return its relation; a row that does
/// not begin with a relationship fails the whole.
pub fn returned_relation<S: Entity, T: Entity>(
    action: Action,
    records: &Vec<Vec<GraphValue>>,
    source: S,
    target: T,
) -> (r: Result<Relation<S, T>, DbActionError>)
    ensures
        match r {
            Ok(relation) => {
                &&& records@.len() > 0
                &&& forall|i: int|
                    0 <= i < records@.len() ==> starts_with_relationship(#[trigger] records@[i]@)
                &&& relation.source() == source
                &&& relation.target() == target
                &&& relation.edge_name() == relationship_type(records@.last()@[0])
                &&& relation.params() is None
            },
            Err(DbActionError::NoRelation(failed)) => failed == action && records@.len() == 0,
            Err(DbActionError::NotARelationship) => exists|i: int|
                0 <= i < records@.len() && !starts_with_relationship(#[trigger] records@[i]@),
            Err(DbActionError::UnpersistedEndpoints { source: from, target: to }) => {
                &&& records@.len() > 0
                &&& forall|i: int|
                    0 <= i < records@.len() ==> starts_with_relationship(#[trigger] records@[i]@)
                &&& source.id() is None || target.id() is None
                &&& names::<S>(&from, source.id())
                &&& names::<T>(&to, target.id())
            },
            Err(_) => false,
        },
{
    if records.len() == 0 {
        return Err(DbActionError::NoRelation(action));
    }
    let mut i: usize = 0;
    while i < records.len()
        invariant
            i <= records.len(),
            forall|j: int| 0 <= j < i ==> starts_with_relationship(#[trigger] records@[j]@),
        decreases records.len() - i,
    {
        let row = &records[i];
        let begins = row.len() > 0 && match &row[0] {
            GraphValue::Relationship(_) => true,
            _ => false,
        };
        if !begins {
            return Err(DbActionError::NotARelationship);
        }
        i = i + 1;
    }
    let last = &records[records.len() - 1];
    let name = match &last[0] {
        GraphValue::Relationship(relationship) => relationship.rel_type.clone(),
        _ => String::new(),
    };
    Relation::new(source, target, name, None)
}

/// The nodes of all rows, in the order they came.
pub open spec fn stream_nodes(rows: Seq<Vec<GraphValue>>) -> Seq<GraphNode>
    decreases rows.len(),
{
    if rows.len() == 0 {
        Seq::empty()
    } else {
        row_nodes(rows[0]@) + stream_nodes(rows.skip(1))
    }
}

/// The relationships of all rows, in the order they came.
pub open spec fn stream_relationships(rows: Seq<Vec<GraphValue>>) -> Seq<GraphRelationship>
    decreases rows.len(),
{
    if rows.len() == 0 {
        Seq::empty()
    } else {
        row_relationships(rows[0]@) + stream_relationships(rows.skip(1))
    }
}

/// The last of `nodes` that has the primary label `label` and the identity
/// `identity`.
pub open spec fn find_node(nodes: Seq<GraphNode>, label: Seq<char>, identity: i64) -> Option<
    GraphNode,
>
    decreases nodes.len(),
{
    if nodes.len() == 0 {
        None
    } else if primary_label(&nodes.last()) == Some(label) && nodes.last().identity == identity {
        Some(nodes.last())
    } else {
        find_node(nodes.drop_last(), label, identity)
    }
}

/// True when `relation` joins the relationship to the nodes at its two ends:
/// the source decoded from the node of type `S` that the relationship starts
/// at, the target from the node of type `T` that it ends at.
pub open spec fn joined<S: Entity, T: Entity>(
    nodes: Seq<GraphNode>,
    relationship: GraphRelationship,
    now: Timestamp,
    relation: Relation<S, T>,
) -> bool {
    match (
        find_node(nodes, S::tag(), relationship.start_node_identity),
        find_node(nodes, T::tag(), relationship.end_node_identity),
    ) {
        (Some(start), Some(end)) => {
            &&& relation.source().id() == Some(start.identity as u32)
            &&& S::decoded(&start, now, &relation.source())
            &&& relation.target().id() == Some(end.identity as u32)
            &&& T::decoded(&end, now, &relation.target())
            &&& relation.edge_name() == relationship.rel_type@
            &&& relation.params() is None
        },
        _ => false,
    }
}

/// True when both ends of the relationship are among the nodes.
pub open spec fn complete<S: Entity, T: Entity>(
    nodes: Seq<GraphNode>,
    relationship: GraphRelationship,
) -> bool {
    &&& find_node(nodes, S::tag(), relationship.start_node_identity) is Some
    &&& find_node(nodes, T::tag(), relationship.end_node_identity) is Some
}

/// True when the relationship at `index` is the first with an end that is
/// not among the nodes, and `label` and `identity` say which node is missed:
/// the source where that is missing, else the target.
pub open spec fn first_dangling<S: Entity, T: Entity>(
    nodes: Seq<GraphNode>,
    relationships: Seq<GraphRelationship>,
    index: int,
    label: Seq<char>,
    identity: i64,
) -> bool {
    &&& 0 <= index < relationships.len()
    &&& forall|j: int| 0 <= j < index ==> complete::<S, T>(nodes, #[trigger] relationships[j])
    &&& if find_node(nodes, S::tag(), relationships[index].start_node_identity) is None {
        label == S::tag() && identity == relationships[index].start_node_identity
    } else {
        &&& find_node(nodes, T::tag(), relationships[index].end_node_identity) is None
        &&& label == T::tag()
        &&& identity == relationships[index].end_node_identity
    }
}

/// Looks for the last node with the given primary label and identity.
pub fn find_node_in<'a>(nodes: &'a Vec<GraphNode>, label: &str, identity: i64) -> (r: Option<
    &'a GraphNode,
>)
    ensures
        match r {
            Some(node) => find_node(nodes@, label@, identity) == Some(*node),
            None => find_node(nodes@, label@, identity) is None,
        },
{
    let wanted = String::from_str(label);
    let mut i: usize = nodes.len();
    proof {
        assert(nodes@.take(i as int) =~= nodes@);
    }
    while i > 0
        invariant
            i <= nodes.len(),
            wanted@ == label@,
            find_node(nodes@, label@, identity) == find_node(nodes@.take(i as int), label@, identity),
        decreases i,
    {
        proof {
            assert(nodes@.take(i as int).drop_last() =~= nodes@.take(i as int - 1));
            assert(nodes@.take(i as int).last() == nodes@[i as int - 1]);
        }
        let node = &nodes[i - 1];
        if node.identity == identity && node.labels.len() > 0 && node.labels[0] == wanted {
            return Some(node);
        }
        i = i - 1;
    }
    proof {
        assert(nodes@.take(0).len() == 0);
    }
    None
}

/// Rebuilds the relations of a result in which nodes and relationships come
/// mixed. Every relationship gives one relation, in the order they came, by
/// joining it to the nodes that carry the identities of its two ends. A
/// relationship with an end that is not among the nodes fails the whole.
pub fn pull_relations<S: Entity, T: Entity>(records: Vec<Vec<GraphValue>>, now: Timestamp) -> (r:
    Result<Vec<Relation<S, T>>, DbActionError>)
    ensures
        match r {
            Ok(relations) => {
                &&& relations@.len() == stream_relationships(records@).len()
                &&& forall|i: int|
                    0 <= i < relations@.len() ==> joined::<S, T>(
                        stream_nodes(records@),
                        stream_relationships(records@)[i],
                        now,
                        #[trigger] relations@[i],
                    )
            },
            Err(DbActionError::MissingEndpoint { position, label, identity }) => first_dangling::<
                S,
                T,
            >(
                stream_nodes(records@),
                stream_relationships(records@),
                position as int,
                label@,
                identity,
            ),
            Err(_) => false,
        },
{
    let ghost whole = records@;
    let mut rest = records;
    let mut nodes: Vec<GraphNode> = Vec::new();
    let mut relationships: Vec<GraphRelationship> = Vec::new();
    proof {
        assert(whole.skip(whole.len() as int) =~= Seq::empty());
        assert(whole.take(whole.len() as int) =~= whole);
    }
    while rest.len() > 0
        invariant
            rest@.len() <= whole.len(),
            rest@ == whole.take(rest@.len() as int),
            nodes@ == stream_nodes(whole.skip(rest@.len() as int)),
            relationships@ == stream_relationships(whole.skip(rest@.len() as int)),
        decreases rest.len(),
    {
        let ghost k = rest@.len() as int;
        let row = rest.pop().unwrap();
        proof {
            assert(row == whole[k - 1]);
            assert(rest@ =~= whole.take(k - 1));
            assert(whole.skip(k - 1)[0] == whole[k - 1]);
            assert(whole.skip(k - 1).skip(1) =~= whole.skip(k));
        }
        let input = FromInput::from_row(row);
        let mut row_nodes = input.nodes;
        let mut row_relationships = input.relationships;
        row_nodes.append(&mut nodes);
        row_relationships.append(&mut relationships);
        nodes = row_nodes;
        relationships = row_relationships;
    }
    proof {
        assert(whole.skip(0) =~= whole);
    }
    let mut out: Vec<Relation<S, T>> = Vec::new();
    let mut i: usize = 0;
    while i < relationships.len()
        invariant
            i <= relationships.len(),
            out@.len() == i,
            whole == records@,
            nodes@ == stream_nodes(whole),
            relationships@ == stream_relationships(whole),
            forall|j: int|
                0 <= j < i ==> joined::<S, T>(nodes@, relationships@[j], now, #[trigger] out@[j]),
        decreases relationships.len() - i,
    {
        let relationship = &relationships[i];
        proof {
            assert forall|j: int| 0 <= j < i implies complete::<S, T>(
                nodes@,
                #[trigger] relationships@[j],
            ) by {
                assert(joined::<S, T>(nodes@, relationships@[j], now, out@[j]));
            }
        }
        let start = match find_node_in(&nodes, S::get_node_label(), relationship.start_node_identity) {
            Some(node) => node,
            None => {
                let label = String::from_str(S::get_node_label());
                let identity = relationship.start_node_identity;
                proof {
                    assert(first_dangling::<S, T>(
                        stream_nodes(records@),
                        stream_relationships(records@),
                        i as int,
                        label@,
                        identity,
                    ));
                }
                let error = DbActionError::MissingEndpoint { position: i, label, identity };
                return Err(error);
            },
        };
        let end = match find_node_in(&nodes, T::get_node_label(), relationship.end_node_identity) {
            Some(node) => node,
            None => {
                let label = String::from_str(T::get_node_label());
                let identity = relationship.end_node_identity;
                proof {
                    assert(first_dangling::<S, T>(
                        stream_nodes(records@),
                        stream_relationships(records@),
                        i as int,
                        label@,
                        identity,
                    ));
                }
                let error = DbActionError::MissingEndpoint { position: i, label, identity };
                return Err(error);
            },
        };
        let source = S::from_node(start, now);
        let target = T::from_node(end, now);
        let ghost out_before = out@;
        match Relation::new(source, target, relationship.rel_type.clone(), None) {
            Ok(relation) => {
                out.push(relation);
                proof {
                    assert forall|j: int| 0 <= j < i + 1 implies joined::<S, T>(
                        nodes@,
                        relationships@[j],
                        now,
                        #[trigger] out@[j],
                    ) by {
                        if j < i {
                            assert(out@[j] == out_before[j]);
                        }
                    }
                }
            },
            Err(e) => {
                return Err(e);
            },
        }
        i = i + 1;
    }
    Ok(out)
}

} // verus!
