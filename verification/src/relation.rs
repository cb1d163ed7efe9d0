//! A named, directed edge between two persisted entities, and the statements
//! that create, find and remove it.

use vstd::prelude::*;
use crate::entity::{entity_ref, names, Entity, Id};
use crate::error::DbActionError;
use crate::graph::{GraphRelationship, Properties, PropertyValue};
use crate::text::{bool_text, bool_to_string, decimal, i64_to_string, signed_decimal};

verus! {

/// How a scalar is written into a statement: booleans and numbers bare, text
/// in single quotes, an absent value as `null`. A composite has no written
/// form.
pub open spec fn value_text(value: PropertyValue) -> Option<Seq<char>> {
    match value {
        PropertyValue::Boolean(b) => Some(bool_text(b)),
        PropertyValue::Integer(n) => Some(signed_decimal(n as int)),
        PropertyValue::Decimal(s) => Some(s@),
        PropertyValue::Text(s) => Some("'"@ + s@ + "'"@),
        PropertyValue::Temporal(s) => Some(s@),
        PropertyValue::Null => Some("null"@),
        PropertyValue::Composite => None,
    }
}

/// One parameter as `key: value`, if its value has a written form.
pub open spec fn pair_text(pair: (String, PropertyValue)) -> Option<Seq<char>> {
    match value_text(pair.1) {
        Some(v) => Some(pair.0@ + ": "@ + v),
        None => None,
    }
}

/// The parameters that have a written form, each as `key: value`, separated
/// by a comma and a space.
pub open spec fn pairs_text(entries: Seq<(String, PropertyValue)>) -> Seq<char>
    decreases entries.len(),
{
    if entries.len() == 0 {
        Seq::empty()
    } else {
        let head = pairs_text(entries.drop_last());
        match pair_text(entries.last()) {
            Some(t) => if head.len() == 0 {
                t
            } else {
                head + ", "@ + t
            },
            None => head,
        }
    }
}

/// The written parameters of a relation: nothing where it has none.
pub open spec fn params_text(params: Option<Properties>) -> Seq<char> {
    match params {
        Some(p) => pairs_text(p.entries()),
        None => Seq::empty(),
    }
}

/// The statement that creates the edge `name` from node `source` to node
/// `target`.
pub open spec fn create_text(
    source_tag: Seq<char>,
    target_tag: Seq<char>,
    source: u32,
    target: u32,
    name: Seq<char>,
    params: Seq<char>,
) -> Seq<char> {
    "MATCH (s:"@ + source_tag + "), (t:"@ + target_tag + ") WHERE id(s) = "@ + decimal(
        source as nat,
    ) + " AND id(t) = "@ + decimal(target as nat) + " CREATE (s)-[r:"@ + name + " "@ + params
        + "]->(t) RETURN r"@
}

/// The part that the statements to find and to remove an edge share.
pub open spec fn edge_match_text(
    source_tag: Seq<char>,
    target_tag: Seq<char>,
    source: int,
    target: int,
    name: Seq<char>,
) -> Seq<char> {
    "MATCH (s:"@ + source_tag + ") -[r:"@ + name + "]- (t:"@ + target_tag + ") WHERE id(s) = "@
        + signed_decimal(source) + " AND id(t) = "@ + signed_decimal(target)
}

/// Writes one scalar as `value_text` has it.
pub fn try_value_to_str(value: &PropertyValue) -> (r: Option<String>)
    ensures
        match r {
            Some(s) => value_text(*value) == Some(s@),
            None => value_text(*value) is None,
        },
{
    match value {
        PropertyValue::Boolean(b) => Some(bool_to_string(*b)),
        PropertyValue::Integer(n) => Some(i64_to_string(*n)),
        PropertyValue::Decimal(s) => Some(s.clone()),
        PropertyValue::Text(s) => {
            let mut out = String::from_str("'");
            out.append(s.as_str());
            out.append("'");
            Some(out)
        },
        PropertyValue::Temporal(s) => Some(s.clone()),
        PropertyValue::Null => Some(String::from_str("null")),
        PropertyValue::Composite => None,
    }
}

/// Writes one parameter as `key: value`; fails for a composite value.
pub fn try_param_pair_to_str(key: &String, value: &PropertyValue) -> (r: Result<String, ()>)
    ensures
        match r {
            Ok(s) => pair_text((*key, *value)) == Some(s@),
            Err(_) => pair_text((*key, *value)) is None,
        },
{
    match try_value_to_str(value) {
        Some(v) => {
            let mut out = key.clone();
            out.append(": ");
            out.append(v.as_str());
            Ok(out)
        },
        None => Err(()),
    }
}

/// Writes the parameters as `pairs_text` has them.
pub fn pairs_to_str(params: &Properties) -> (r: String)
    ensures
        r@ == pairs_text(params.entries()),
{
    let mut out = String::new();
    let mut i: usize = 0;
    let n = params.len();
    while i < n
        invariant
            i <= n,
            n == params.entries().len(),
            out@ == pairs_text(params.entries().take(i as int)),
        decreases n - i,
    {
        proof {
            assert(params.entries().take(i as int + 1).drop_last() =~= params.entries().take(
                i as int,
            ));
            assert(params.entries().take(i as int + 1).last() == params.entries()[i as int]);
        }
        let entry = params.entry(i);
        match try_param_pair_to_str(&entry.0, &entry.1) {
            Ok(t) => {
                if out.as_str().unicode_len() == 0 {
                    out = t;
                } else {
                    out.append(", ");
                    out.append(t.as_str());
                }
            },
            Err(_) => {},
        }
        i = i + 1;
    }
    proof {
        assert(params.entries().take(n as int) =~= params.entries());
    }
    out
}

/// What looking up the entity at one end of a relationship comes to. `id`
/// is what the store identity converts to and `found` what the repository
/// answered for it; the conversion is looked at first.
pub fn resolve_by_id<E: Entity>(
    identity: i64,
    id: Option<u32>,
    found: Result<Option<E>, DbActionError>,
) -> (r: Result<E, DbActionError>)
    ensures
        id is None ==> (match r {
            Err(DbActionError::ForeignIdentity { label, identity: reported }) => label@ == E::tag()
                && reported == identity,
            _ => false,
        }),
        id is Some ==> (match found {
            Ok(Some(e)) => r == Ok::<E, DbActionError>(e),
            Ok(None) => match r {
                Err(DbActionError::NotFound { label, identity: reported }) => label@ == E::tag()
                    && reported == identity,
                _ => false,
            },
            Err(e) => r == Err::<E, DbActionError>(e),
        }),
{
    if id.is_none() {
        return Err(
            DbActionError::ForeignIdentity { label: String::from_str(E::get_node_label()), identity },
        );
    }
    match found {
        Err(e) => Err(e),
        Ok(None) => Err(
            DbActionError::NotFound { label: String::from_str(E::get_node_label()), identity },
        ),
        Ok(Some(e)) => Ok(e),
    }
}

/// An edge called `name` from a source entity to a target entity, both of
/// which the store knows, with optional scalar parameters.
#[derive(Debug)]
pub struct Relation<S: Entity, T: Entity> {
    source_node: S,
    target_node: T,
    name: String,
    params_opt: Option<Properties>,
}

impl<S: Entity, T: Entity> Relation<S, T> {
    /// Holds of every relation: both of its ends carry an identity.
    #[verifier::type_invariant]
    pub open spec fn ends_persisted(self) -> bool {
        self.source().id() is Some && self.target().id() is Some
    }

    /// The entity the edge starts at.
    pub closed spec fn source(&self) -> S {
        self.source_node
    }

    /// The entity the edge ends at.
    pub closed spec fn target(&self) -> T {
        self.target_node
    }

    /// The name of the edge.
    pub closed spec fn edge_name(&self) -> Seq<char> {
        self.name@
    }

    /// The parameters of the edge.
    pub closed spec fn params(&self) -> Option<Properties> {
        self.params_opt
    }

    /// Relates two entities. Both must be persisted: where either lacks its
    /// identity the relation is refused with an error that names both.
    pub fn new(source_node: S, target_node: T, name: String, params_opt: Option<Properties>) -> (r:
        Result<Relation<S, T>, DbActionError>)
        ensures
            match r {
                Ok(relation) => {
                    &&& source_node.id() is Some
                    &&& target_node.id() is Some
                    &&& relation.source() == source_node
                    &&& relation.target() == target_node
                    &&& relation.edge_name() == name@
                    &&& relation.params() == params_opt
                },
                Err(DbActionError::UnpersistedEndpoints { source, target }) => {
                    &&& source_node.id() is None || target_node.id() is None
                    &&& names::<S>(&source, source_node.id())
                    &&& names::<T>(&target, target_node.id())
                },
                Err(_) => false,
            },
            source_node.id() is None || target_node.id() is None ==> (r matches Err(e)
                && e.is_precondition()),
    {
        if source_node.get_id().is_none() || target_node.get_id().is_none() {
            Err(
                DbActionError::UnpersistedEndpoints {
                    source: entity_ref(&source_node),
                    target: entity_ref(&target_node),
                },
            )
        } else {
            Ok(Relation { source_node, target_node, name, params_opt })
        }
    }

    /// Rebuilds a relation from a stored relationship and what looking up
    /// the entities at its two ends came to. The relation takes over the
    /// relationship's type and, where it has any, its properties. Where
    /// either end could not be loaded, the error says which one could.
    pub fn try_from(
        value: GraphRelationship,
        source: Result<S, DbActionError>,
        target: Result<T, DbActionError>,
    ) -> (r: Result<Relation<S, T>, DbActionError>)
        ensures
            match (source, target) {
                (Ok(s), Ok(t)) => match r {
                    Ok(relation) => {
                        &&& s.id() is Some
                        &&& t.id() is Some
                        &&& relation.source() == s
                        &&& relation.target() == t
                        &&& relation.edge_name() == value.rel_type@
                        &&& relation.params() == if value.properties.entries().len() == 0 {
                            None
                        } else {
                            Some(value.properties)
                        }
                    },
                    Err(DbActionError::UnpersistedEndpoints { source: from, target: to }) => {
                        &&& s.id() is None || t.id() is None
                        &&& names::<S>(&from, s.id())
                        &&& names::<T>(&to, t.id())
                    },
                    Err(_) => false,
                },
                _ => match r {
                    Err(
                        DbActionError::UnresolvedRelation {
                            name,
                            source_present,
                            target_present,
                            source_identity,
                            target_identity,
                        },
                    ) => {
                        &&& name@ == value.rel_type@
                        &&& source_present == (source is Ok)
                        &&& target_present == (target is Ok)
                        &&& source_identity == value.start_node_identity
                        &&& target_identity == value.end_node_identity
                    },
                    _ => false,
                },
            },
    {
        match (source, target) {
            (Ok(s), Ok(t)) => {
                let params_opt = if value.properties.len() == 0 {
                    None
                } else {
                    Some(value.properties)
                };
                Relation::new(s, t, value.rel_type, params_opt)
            },
            (source, target) => Err(
                DbActionError::UnresolvedRelation {
                    name: value.rel_type,
                    source_present: source.is_ok(),
                    target_present: target.is_ok(),
                    source_identity: value.start_node_identity,
                    target_identity: value.end_node_identity,
                },
            ),
        }
    }

    /// The entity the edge starts at.
    pub fn source_node(&self) -> (r: &S)
        ensures
            *r == self.source(),
            r.id() is Some,
    {
        proof {
            use_type_invariant(self);
        }
        &self.source_node
    }

    /// The entity the edge ends at.
    pub fn target_node(&self) -> (r: &T)
        ensures
            *r == self.target(),
            r.id() is Some,
    {
        proof {
            use_type_invariant(self);
        }
        &self.target_node
    }

    /// The name of the edge.
    pub fn name(&self) -> (r: &String)
        ensures
            r@ == self.edge_name(),
    {
        &self.name
    }

    /// Gives the two ends back.
    pub fn into_nodes(self) -> (r: (S, T))
        ensures
            r.0 == self.source(),
            r.1 == self.target(),
    {
        (self.source_node, self.target_node)
    }

    fn source_id(&self) -> (r: u32)
        ensures
            self.source().id() == Some(r),
    {
        proof {
            use_type_invariant(self);
        }
        match self.source_node.get_id() {
            Some(id) => *id,
            None => 0,
        }
    }

    fn target_id(&self) -> (r: u32)
        ensures
            self.target().id() == Some(r),
    {
        proof {
            use_type_invariant(self);
        }
        match self.target_node.get_id() {
            Some(id) => *id,
            None => 0,
        }
    }

    /// The written parameters of the edge.
    pub fn params_to_str(&self) -> (r: String)
        ensures
            r@ == params_text(self.params()),
    {
        match &self.params_opt {
            Some(p) => pairs_to_str(p),
            None => String::new(),
        }
    }

    /// The statement that finds both ends by identity and creates the edge
    /// between them, with the parameters written in.
    pub fn get_create_statement(&self) -> (r: String)
        ensures
            self.source().id() is Some,
            self.target().id() is Some,
            r@ == create_text(
                S::tag(),
                T::tag(),
                self.source().id().unwrap(),
                self.target().id().unwrap(),
                self.edge_name(),
                params_text(self.params()),
            ),
    {
        let mut out = String::from_str("MATCH (s:");
        out.append(S::get_node_label());
        out.append("), (t:");
        out.append(T::get_node_label());
        out.append(") WHERE id(s) = ");
        out.append(self.source_id().to_text().as_str());
        out.append(" AND id(t) = ");
        out.append(self.target_id().to_text().as_str());
        out.append(" CREATE (s)-[r:");
        out.append(self.name.as_str());
        out.append(" ");
        out.append(self.params_to_str().as_str());
        out.append("]->(t) RETURN r");
        out
    }

    fn edge_match(&self) -> (r: String)
        ensures
            self.source().id() is Some,
            self.target().id() is Some,
            r@ == edge_match_text(
                S::tag(),
                T::tag(),
                self.source().id().unwrap() as int,
                self.target().id().unwrap() as int,
                self.edge_name(),
            ),
    {
        edge_match_statement::<S, T>(
            self.source_id().to_identity(),
            self.target_id().to_identity(),
            &self.name,
        )
    }

    /// The statement that finds the edge between the two ends.
    pub fn get_match_statement(&self) -> (r: String)
        ensures
            self.source().id() is Some,
            self.target().id() is Some,
            r@ == edge_match_text(
                S::tag(),
                T::tag(),
                self.source().id().unwrap() as int,
                self.target().id().unwrap() as int,
                self.edge_name(),
            ) + " RETURN r"@,
    {
        let mut out = self.edge_match();
        out.append(" RETURN r");
        out
    }

    /// The statement that removes the edge between the two ends.
    pub fn get_delete_statement(&self) -> (r: String)
        ensures
            self.source().id() is Some,
            self.target().id() is Some,
            r@ == edge_match_text(
                S::tag(),
                T::tag(),
                self.source().id().unwrap() as int,
                self.target().id().unwrap() as int,
                self.edge_name(),
            ) + " DELETE r"@,
    {
        let mut out = self.edge_match();
        out.append(" DELETE r");
        out
    }
}

/// Writes the pattern that matches the edge `name` between the nodes with
/// the given identities.
pub fn edge_match_statement<S: Entity, T: Entity>(source: i64, target: i64, name: &String) -> (r:
    String)
    ensures
        r@ == edge_match_text(S::tag(), T::tag(), source as int, target as int, name@),
{
    let mut out = String::from_str("MATCH (s:");
    out.append(S::get_node_label());
    out.append(") -[r:");
    out.append(name.as_str());
    out.append("]- (t:");
    out.append(T::get_node_label());
    out.append(") WHERE id(s) = ");
    out.append(i64_to_string(source).as_str());
    out.append(" AND id(t) = ");
    out.append(i64_to_string(target).as_str());
    out
}

} // verus!
