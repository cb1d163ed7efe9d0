//! The failures of the persistence layer, as a closed set of kinds.

use vstd::prelude::*;
use crate::entity::{entity_text, DecodeError, EntityRef};
use crate::text::{
    bool_text,
    bool_to_string,
    decimal,
    i64_to_string,
    signed_decimal,
    u64_to_string,
};

verus! {

/// The operation that failed.
#[derive(Clone, Copy, Debug, PartialEq, Eq, Structural)]
pub enum Action {
    Create,
    Update,
    Delete,
    CreateRelation,
    MatchRelation,
}

/// Why an operation on the store did not produce its result.
#[derive(Debug)]
pub enum DbActionError {
    /// The store cannot be reached or refused the credentials.
    Connection(String),
    /// The store refused to open a transaction; with its message.
    Transaction(String),
    /// The store rejected a statement or failed to deliver its results; with
    /// its message.
    Statement(String),
    /// The row at this position could not be turned into an entity with
    /// this node label; the rows before it could.
    Decode { label: String, row: usize, cause: DecodeError },
    /// A row that should hold a relationship holds something else first.
    NotARelationship,
    /// The relationship at this position among those returned came back
    /// without the node at one of its ends; with that node's label and
    /// identity.
    MissingEndpoint { position: usize, label: String, identity: i64 },
    /// The action should have returned an entity and returned none.
    NoEntity(Action),
    /// The action should have returned a relation and returned none.
    NoRelation(Action),
    /// An entity without identity cannot be updated or deleted.
    Unpersisted { entity: EntityRef, action: Action },
    /// A relation needs both ends persisted; names both ends.
    UnpersistedEndpoints { source: EntityRef, target: EntityRef },
    /// The relation to delete starts at an entity without identity.
    UnpersistedSource(EntityRef),
    /// The relation to delete ends at an entity without identity.
    UnpersistedTarget(EntityRef),
    /// A timestamp lies outside the dates that can be written down.
    UnwritableTimestamp,
    /// The identity stored in a relationship is no identity of an entity.
    ForeignIdentity { label: String, identity: i64 },
    /// No entity with this label is stored under the identity that a
    /// relationship names.
    NotFound { label: String, identity: i64 },
    /// A relationship could not be loaded because the entity at one of its
    /// ends could not be; says which ends could.
    UnresolvedRelation {
        name: String,
        source_present: bool,
        target_present: bool,
        source_identity: i64,
        target_identity: i64,
    },
}

/// The name of an action as it is written in messages.
pub open spec fn action_text(action: Action) -> Seq<char> {
    match action {
        Action::Create => "Create"@,
        Action::Update => "Update"@,
        Action::Delete => "Delete"@,
        Action::CreateRelation => "Create relation"@,
        Action::MatchRelation => "Match one relation of type"@,
    }
}

/// Writes the name of an action.
pub fn action_name(action: Action) -> (r: &'static str)
    ensures
        r@ == action_text(action),
{
    match action {
        Action::Create => "Create",
        Action::Update => "Update",
        Action::Delete => "Delete",
        Action::CreateRelation => "Create relation",
        Action::MatchRelation => "Match one relation of type",
    }
}

/// The written form of the entity that a reference names.
pub open spec fn ref_text(entity: EntityRef) -> Seq<char> {
    entity_text(entity.label@, entity.id)
}

/// What a row that cannot be decoded is found to hold.
pub open spec fn cause_text(cause: DecodeError) -> Seq<char> {
    match cause {
        DecodeError::NoNodes => "no nodes available"@,
        DecodeError::UnusualNumberOfNodes(n) => "unusual number of nodes: "@ + decimal(n as nat),
    }
}

/// Writes what a row that cannot be decoded is found to hold.
pub fn cause_message(cause: &DecodeError) -> (r: String)
    ensures
        r@ == cause_text(*cause),
{
    match cause {
        DecodeError::NoNodes => String::from_str("no nodes available"),
        DecodeError::UnusualNumberOfNodes(n) => {
            let mut out = String::from_str("unusual number of nodes: ");
            out.append(u64_to_string(*n as u64).as_str());
            out
        },
    }
}

/// What a failure says of itself.
pub open spec fn message_text(error: DbActionError) -> Seq<char> {
    match error {
        DbActionError::Connection(m) => m@,
        DbActionError::Transaction(m) => "Unable to begin transaction: "@ + m@,
        DbActionError::Statement(m) => m@,
        DbActionError::Decode { label, row, cause } => "Unable to create entity object of type "@
            + label@ + "; row "@ + decimal(row as nat) + ": "@ + cause_text(cause),
        DbActionError::NotARelationship => "Unable to create relation from record"@,
        DbActionError::MissingEndpoint { position, label, identity } =>
            "Unable to create Relation; relationship "@ + decimal(position as nat)
                + ": result holds no node of type "@ + label@ + " with id "@ + signed_decimal(
                identity as int,
            ),
        DbActionError::NoEntity(action) => action_text(action) + " did not return entity"@,
        DbActionError::NoRelation(action) => action_text(action) + " did not return relation"@,
        DbActionError::Unpersisted { entity, action } => if action == Action::Delete {
            "Entity "@ + ref_text(entity) + " is unpersisted and cannot be deleted"@
        } else {
            "Id of entity "@ + ref_text(entity) + " is unknown; entity cannot be modified"@
        },
        DbActionError::UnpersistedEndpoints { source, target } =>
            "Both nodes need to have an Id when creating a relation; source_node.id: "@ + ref_text(
                source,
            ) + "; target_node.id: "@ + ref_text(target),
        DbActionError::UnpersistedSource(entity) =>
            "Relationship cannot be deleted; Source entity "@ + ref_text(entity)
                + " is unpersisted"@,
        DbActionError::UnpersistedTarget(entity) =>
            "Relationship cannot be deleted; Target entity "@ + ref_text(entity)
                + " is unpersisted"@,
        DbActionError::UnwritableTimestamp => "Timestamp cannot be written as a date and time"@,
        DbActionError::ForeignIdentity { label, identity } => "Id "@ + signed_decimal(
            identity as int,
        ) + " stored in relationship to entity "@ + label@ + " is not convertible to target id"@,
        DbActionError::NotFound { label, identity } =>
            "Unable to create Relation; could not find entity of type "@ + label@ + " with id "@
                + signed_decimal(identity as int),
        DbActionError::UnresolvedRelation {
            name,
            source_present,
            target_present,
            source_identity,
            target_identity,
        } => "Could not load relation of type "@ + name@ + "; Source is present: "@ + bool_text(
            source_present,
        ) + "; target is present: "@ + bool_text(target_present) + "; src_id: "@ + signed_decimal(
            source_identity as int,
        ) + ", target_id: "@ + signed_decimal(target_identity as int),
    }
}

impl DbActionError {
    /// Writes the failure out for a reader.
    pub fn message(&self) -> (r: String)
        ensures
            r@ == message_text(*self),
    {
        match self {
            DbActionError::Connection(m) => m.clone(),
            DbActionError::Transaction(m) => {
                let mut out = String::from_str("Unable to begin transaction: ");
                out.append(m.as_str());
                out
            },
            DbActionError::Statement(m) => m.clone(),
            DbActionError::Decode { label, row, cause } => {
                let mut out = String::from_str("Unable to create entity object of type ");
                out.append(label.as_str());
                out.append("; row ");
                out.append(u64_to_string(*row as u64).as_str());
                out.append(": ");
                out.append(cause_message(cause).as_str());
                out
            },
            DbActionError::NotARelationship => String::from_str(
                "Unable to create relation from record",
            ),
            DbActionError::MissingEndpoint { position, label, identity } => {
                let mut out = String::from_str("Unable to create Relation; relationship ");
                out.append(u64_to_string(*position as u64).as_str());
                out.append(": result holds no node of type ");
                out.append(label.as_str());
                out.append(" with id ");
                out.append(i64_to_string(*identity).as_str());
                out
            },
            DbActionError::NoEntity(action) => {
                let mut out = String::from_str(action_name(*action));
                out.append(" did not return entity");
                out
            },
            DbActionError::NoRelation(action) => {
                let mut out = String::from_str(action_name(*action));
                out.append(" did not return relation");
                out
            },
            DbActionError::Unpersisted { entity, action } => {
                let deleting = match action {
                    Action::Delete => true,
                    _ => false,
                };
                if deleting {
                    let mut out = String::from_str("Entity ");
                    out.append(entity.to_text().as_str());
                    out.append(" is unpersisted and cannot be deleted");
                    out
                } else {
                    let mut out = String::from_str("Id of entity ");
                    out.append(entity.to_text().as_str());
                    out.append(" is unknown; entity cannot be modified");
                    out
                }
            },
            DbActionError::UnpersistedEndpoints { source, target } => {
                let mut out = String::from_str(
                    "Both nodes need to have an Id when creating a relation; source_node.id: ",
                );
                out.append(source.to_text().as_str());
                out.append("; target_node.id: ");
                out.append(target.to_text().as_str());
                out
            },
            DbActionError::UnpersistedSource(entity) => {
                let mut out = String::from_str("Relationship cannot be deleted; Source entity ");
                out.append(entity.to_text().as_str());
                out.append(" is unpersisted");
                out
            },
            DbActionError::UnpersistedTarget(entity) => {
                let mut out = String::from_str("Relationship cannot be deleted; Target entity ");
                out.append(entity.to_text().as_str());
                out.append(" is unpersisted");
                out
            },
            DbActionError::UnwritableTimestamp => String::from_str(
                "Timestamp cannot be written as a date and time",
            ),
            DbActionError::ForeignIdentity { label, identity } => {
                let mut out = String::from_str("Id ");
                out.append(i64_to_string(*identity).as_str());
                out.append(" stored in relationship to entity ");
                out.append(label.as_str());
                out.append(" is not convertible to target id");
                out
            },
            DbActionError::NotFound { label, identity } => {
                let mut out = String::from_str(
                    "Unable to create Relation; could not find entity of type ",
                );
                out.append(label.as_str());
                out.append(" with id ");
                out.append(i64_to_string(*identity).as_str());
                out
            },
            DbActionError::UnresolvedRelation {
                name,
                source_present,
                target_present,
                source_identity,
                target_identity,
            } => {
                let mut out = String::from_str("Could not load relation of type ");
                out.append(name.as_str());
                out.append("; Source is present: ");
                out.append(bool_to_string(*source_present).as_str());
                out.append("; target is present: ");
                out.append(bool_to_string(*target_present).as_str());
                out.append("; src_id: ");
                out.append(i64_to_string(*source_identity).as_str());
                out.append(", target_id: ");
                out.append(i64_to_string(*target_identity).as_str());
                out
            },
        }
    }

    /// True for the failures that are found before anything is sent to the
    /// store: an operation that needs an identity met an entity without one.
    pub open spec fn is_precondition(&self) -> bool {
        match self {
            DbActionError::Unpersisted { .. } => true,
            DbActionError::UnpersistedEndpoints { .. } => true,
            DbActionError::UnpersistedSource(_) => true,
            DbActionError::UnpersistedTarget(_) => true,
            _ => false,
        }
    }

    /// Tells whether the failure is one of the precondition kinds.
    pub fn is_precondition_error(&self) -> (r: bool)
        ensures
            r == self.is_precondition(),
    {
        match self {
            DbActionError::Unpersisted { .. } => true,
            DbActionError::UnpersistedEndpoints { .. } => true,
            DbActionError::UnpersistedSource(_) => true,
            DbActionError::UnpersistedTarget(_) => true,
            _ => false,
        }
    }
}

} // verus!
