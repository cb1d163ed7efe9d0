//! One repository for each kind of entity. A repository words the
//! statements for its entity and binds their parameters; sending them and
//! decoding what comes back is the same for all.

use vstd::prelude::*;
use crate::client::{
    bound,
    creates_relationship,
    delete_text,
    deletes_relation,
    fetch_all_text,
    fetch_by_id_text,
    fetches_relations_of_node,
    relations_of_type_text,
    Operation,
};
use crate::entity::reversed;
use crate::entity::{entity_ref, names, Entity, Id};
use crate::error::{Action, DbActionError};
use crate::graph::{lemma_lookup_bound, GraphNode, Properties, PropertyValue, Scalar};
use crate::timestamp::Timestamp;
use crate::user::{opt_text, same_user};
use crate::relation::Relation;
use crate::session::Session;
use crate::task::Task;
use crate::timestamp::{rfc3339_instant, utc_display};
use crate::user::{Team, User};

verus! {

/// Finds one entity by its identity.
pub trait ReadRepository<E: Entity> {
    /// The read that fetches the entity with identity `id`.
    fn find_by_id(&self, id: &u32) -> (op: Operation)
        ensures
            op.statement@ == fetch_by_id_text(E::tag()),
            op.params is Some,
            bound(op.params) == seq![("id"@, Scalar::Integer(*id as i64))],
            !op.is_write,
            op.pull_limit == -1,
    ;
}

/// Finds every entity of a kind.
pub trait ReadAllRepository<E: Entity> {
    /// The read that fetches every entity of the kind.
    fn find_all(&self) -> (op: Operation)
        ensures
            op.statement@ == fetch_all_text(E::tag()),
            op.params is Some,
            bound(op.params).len() == 0,
            !op.is_write,
            op.pull_limit == -1,
    ;
}

/// Adds and removes entities.
pub trait WriteRepository<E: Entity> {
    /// The statement that `add` sends for an entity of this kind.
    spec fn add_text() -> Seq<char>;

    /// The parameters that `add` binds for `entity`; `None` where the
    /// entity holds a value that cannot be written.
    spec fn add_bindings(entity: &E) -> Option<Seq<(Seq<char>, Scalar)>>;

    /// The write that stores a new entity and returns its node.
    fn add(&self, new_entity: &E) -> (r: Result<Operation, DbActionError>)
        ensures
            match r {
                Ok(op) => {
                    &&& op.statement@ == Self::add_text()
                    &&& op.params is Some
                    &&& Self::add_bindings(new_entity) == Some(bound(op.params))
                    &&& op.is_write
                    &&& op.pull_limit == 1
                },
                Err(DbActionError::UnwritableTimestamp) => Self::add_bindings(new_entity) is None,
                Err(_) => false,
            },
    ;

    /// The write that removes the entity's node and the edges at it.
    /// Refused, before anything is sent, for an entity without identity.
    fn delete(&self, entity_to_delete: &E) -> (r: Result<Operation, DbActionError>)
        ensures
            match r {
                Ok(op) => {
                    &&& entity_to_delete.id() is Some
                    &&& op.statement@ == delete_text(E::tag())
                    &&& op.params is Some
                    &&& bound(op.params) == seq![
                        ("id"@, Scalar::Integer(entity_to_delete.id().unwrap() as i64)),
                    ]
                    &&& op.is_write
                    &&& op.pull_limit == -1
                },
                Err(DbActionError::Unpersisted { entity: named, action }) => {
                    &&& entity_to_delete.id() is None
                    &&& names::<E>(&named, None)
                    &&& action == Action::Delete
                },
                Err(_) => false,
            },
            entity_to_delete.id() is None ==> (r matches Err(e) && e.is_precondition()),
    ;
}

/// Changes stored entities.
pub trait ModifyRepository<E: Entity> {
    /// The statement that `update` sends for an entity of this kind.
    spec fn update_text() -> Seq<char>;

    /// The parameters that `update` binds for `entity`, which has the
    /// identity `id`; `None` where the entity holds a value that cannot be
    /// written.
    spec fn update_bindings(entity: &E, id: u32) -> Option<Seq<(Seq<char>, Scalar)>>;

    /// The write that replaces the stored fields of an entity and returns
    /// its node. Refused, before anything is sent, for an entity without
    /// identity.
    fn update(&self, entity_with_update_values: &E) -> (r: Result<Operation, DbActionError>)
        ensures
            match r {
                Ok(op) => {
                    &&& entity_with_update_values.id() is Some
                    &&& op.statement@ == Self::update_text()
                    &&& op.params is Some
                    &&& Self::update_bindings(
                        entity_with_update_values,
                        entity_with_update_values.id().unwrap(),
                    ) == Some(bound(op.params))
                    &&& op.is_write
                    &&& op.pull_limit == 1
                },
                Err(DbActionError::Unpersisted { entity: named, action }) => {
                    &&& entity_with_update_values.id() is None
                    &&& names::<E>(&named, None)
                    &&& action == Action::Update
                },
                Err(DbActionError::UnwritableTimestamp) => {
                    &&& entity_with_update_values.id() is Some
                    &&& Self::update_bindings(
                        entity_with_update_values,
                        entity_with_update_values.id().unwrap(),
                    ) is None
                },
                Err(_) => false,
            },
            entity_with_update_values.id() is None ==> (r matches Err(e) && e.is_precondition()),
    ;
}

/// Words the statements for tasks.
#[derive(Debug)]
pub struct TaskRepository {}

impl TaskRepository {
    pub fn new() -> (r: TaskRepository) {
        TaskRepository {  }
    }
}

impl ReadRepository<Task> for TaskRepository {
    fn find_by_id(&self, id: &u32) -> (op: Operation) {
        crate::client::fetch_by_id::<Task>(id)
    }
}

impl ReadAllRepository<Task> for TaskRepository {
    fn find_all(&self) -> (op: Operation) {
        crate::client::fetch_all::<Task>()
    }
}

impl WriteRepository<Task> for TaskRepository {
    open spec fn add_text() -> Seq<char> {
        "CREATE (u:Task {name: $name, points: $points, enabled: $enabled }) RETURN u"@
    }

    open spec fn add_bindings(entity: &Task) -> Option<Seq<(Seq<char>, Scalar)>> {
        Some(
            seq![
                ("name"@, Scalar::Text(entity.name@)),
                ("points"@, Scalar::Integer(entity.points as i64)),
                ("enabled"@, Scalar::Boolean(entity.enabled)),
            ],
        )
    }

    fn add(&self, new_entity: &Task) -> (r: Result<Operation, DbActionError>) {
        proof {
            reveal_strlit("name");
            reveal_strlit("points");
            reveal_strlit("enabled");
            assert("name"@.len() == 4 && "points"@.len() == 6 && "enabled"@.len() == 7);
        }
        let params = Properties::new().bind("name", PropertyValue::Text(new_entity.name.clone()));
        assert(params.bindings() =~= seq![("name"@, Scalar::Text(new_entity.name@))]);
        let params = params.bind("points", PropertyValue::Integer(new_entity.points as i64));
        assert(params.bindings() =~= seq![
            ("name"@, Scalar::Text(new_entity.name@)),
            ("points"@, Scalar::Integer(new_entity.points as i64)),
        ]);
        let params = params.bind("enabled", PropertyValue::Boolean(new_entity.enabled));
        assert(params.bindings() =~= Self::add_bindings(new_entity).unwrap());
        let statement = String::from_str(
            "CREATE (u:Task {name: $name, points: $points, enabled: $enabled }) RETURN u",
        );
        Ok(crate::client::create(statement, params))
    }

    fn delete(&self, entity_to_delete: &Task) -> (r: Result<Operation, DbActionError>) {
        crate::client::delete::<Task>(entity_to_delete)
    }
}

impl ModifyRepository<Task> for TaskRepository {
    open spec fn update_text() -> Seq<char> {
        "MATCH (u:Task) WHERE id(u) = $id SET u.name = $name, u.points = $points, u.enabled = $enabled RETURN u"@
    }

    open spec fn update_bindings(entity: &Task, id: u32) -> Option<Seq<(Seq<char>, Scalar)>> {
        Some(
            seq![
                ("id"@, Scalar::Integer(id as i64)),
                ("name"@, Scalar::Text(entity.name@)),
                ("points"@, Scalar::Integer(entity.points as i64)),
                ("enabled"@, Scalar::Boolean(entity.enabled)),
            ],
        )
    }

    fn update(&self, entity_with_update_values: &Task) -> (r: Result<Operation, DbActionError>) {
        let id = match entity_with_update_values.get_id() {
            None => {
                return Err(
                    DbActionError::Unpersisted {
                        entity: entity_ref(entity_with_update_values),
                        action: Action::Update,
                    },
                );
            },
            Some(id) => *id,
        };
        proof {
            reveal_strlit("id");
            reveal_strlit("name");
            reveal_strlit("points");
            reveal_strlit("enabled");
            assert("id"@.len() == 2 && "name"@.len() == 4 && "points"@.len() == 6
                && "enabled"@.len() == 7);
        }
        let params = Properties::new().bind("id", PropertyValue::Integer(id.to_identity()));
        let params = params.bind(
            "name",
            PropertyValue::Text(entity_with_update_values.name.clone()),
        );
        assert(params.bindings() =~= seq![
            ("id"@, Scalar::Integer(id as i64)),
            ("name"@, Scalar::Text(entity_with_update_values.name@)),
        ]);
        let params = params.bind(
            "points",
            PropertyValue::Integer(entity_with_update_values.points as i64),
        );
        assert(params.bindings() =~= seq![
            ("id"@, Scalar::Integer(id as i64)),
            ("name"@, Scalar::Text(entity_with_update_values.name@)),
            ("points"@, Scalar::Integer(entity_with_update_values.points as i64)),
        ]);
        let params = params.bind("enabled", PropertyValue::Boolean(entity_with_update_values.enabled));
        assert(params.bindings() =~= Self::update_bindings(entity_with_update_values, id).unwrap());
        let statement = String::from_str(
            "MATCH (u:Task) WHERE id(u) = $id SET u.name = $name, u.points = $points, u.enabled = $enabled RETURN u",
        );
        Ok(crate::client::update(statement, params))
    }
}

/// A task comes back from the store as it went in: a node that holds what
/// `add` binds for a task decodes to a task with the same name, points and
/// enabled flag.
pub proof fn lemma_task_round_trip(task: Task, node: GraphNode, now: Timestamp, decoded: Task)
    requires
        <TaskRepository as WriteRepository<Task>>::add_bindings(&task) == Some(
            node.properties.bindings(),
        ),
        Task::decoded(&node, now, &decoded),
    ensures
        decoded.name@ == task.name@,
        decoded.points == task.points,
        decoded.enabled == task.enabled,
{
    reveal_strlit("name");
    reveal_strlit("points");
    reveal_strlit("enabled");
    assert("name"@.len() == 4 && "points"@.len() == 6 && "enabled"@.len() == 7);
    let entries = node.properties.entries();
    let bindings = node.properties.bindings();
    assert(bindings.len() == 3);
    assert(bindings[0] == (entries[0].0@, entries[0].1@));
    assert(bindings[1] == (entries[1].0@, entries[1].1@));
    assert(bindings[2] == (entries[2].0@, entries[2].1@));
    lemma_lookup_bound(entries, 0);
    lemma_lookup_bound(entries, 1);
    lemma_lookup_bound(entries, 2);
    let points = task.points;
    assert((points as i64) as u16 == points) by (bit_vector);
}

/// What is bound for a password hash: its text, or null where the user has
/// none.
pub open spec fn hash_scalar(hash: Option<String>) -> Scalar {
    match hash {
        Some(h) => Scalar::Text(h@),
        None => Scalar::Null,
    }
}

/// The value to bind for a password hash: its text, or null where the user
/// has none.
pub fn hash_value(hash: &Option<String>) -> (r: PropertyValue)
    ensures
        r@ == hash_scalar(*hash),
{
    match hash {
        Some(h) => PropertyValue::Text(h.clone()),
        None => PropertyValue::Null,
    }
}

/// The five properties of a user that `add` and `update` both bind, after
/// whatever is in `head`.
pub open spec fn user_bindings(head: Seq<(Seq<char>, Scalar)>, entity: &User) -> Seq<
    (Seq<char>, Scalar),
> {
    head + seq![
        ("username"@, Scalar::Text(entity.username@)),
        ("display_name"@, Scalar::Text(entity.display_name@)),
        ("pwd_hash"@, hash_scalar(entity.pwd_hash)),
        ("is_admin"@, Scalar::Boolean(entity.is_admin)),
        ("points"@, Scalar::Integer(entity.points as i64)),
    ]
}

fn bind_user(params: Properties, entity: &User) -> (r: Properties)
    requires
        params.bindings().len() == 0 || params.bindings() == seq![
            ("id"@, params.bindings()[0].1),
        ],
    ensures
        r.bindings() == user_bindings(params.bindings(), entity),
{
    proof {
        reveal_strlit("id");
        reveal_strlit("username");
        reveal_strlit("display_name");
        reveal_strlit("pwd_hash");
        reveal_strlit("is_admin");
        reveal_strlit("points");
        assert("id"@.len() == 2 && "username"@.len() == 8 && "display_name"@.len() == 12
            && "pwd_hash"@.len() == 8 && "is_admin"@.len() == 8 && "points"@.len() == 6);
        assert("username"@[0] == 'u' && "pwd_hash"@[0] == 'p' && "is_admin"@[0] == 'i');
    }
    let ghost head = params.bindings();
    let named = params.bind("username", PropertyValue::Text(entity.username.clone()));
    assert(named.bindings() =~= head + seq![("username"@, Scalar::Text(entity.username@))]);
    let shown = named.bind("display_name", PropertyValue::Text(entity.display_name.clone()));
    assert(shown.bindings() =~= head + seq![
        ("username"@, Scalar::Text(entity.username@)),
        ("display_name"@, Scalar::Text(entity.display_name@)),
    ]);
    let hashed = shown.bind("pwd_hash", hash_value(&entity.pwd_hash));
    assert(hashed.bindings() =~= head + seq![
        ("username"@, Scalar::Text(entity.username@)),
        ("display_name"@, Scalar::Text(entity.display_name@)),
        ("pwd_hash"@, hash_scalar(entity.pwd_hash)),
    ]);
    let ranked = hashed.bind("is_admin", PropertyValue::Boolean(entity.is_admin));
    assert(ranked.bindings() =~= head + seq![
        ("username"@, Scalar::Text(entity.username@)),
        ("display_name"@, Scalar::Text(entity.display_name@)),
        ("pwd_hash"@, hash_scalar(entity.pwd_hash)),
        ("is_admin"@, Scalar::Boolean(entity.is_admin)),
    ]);
    let complete = ranked.bind("points", PropertyValue::Integer(entity.points as i64));
    assert(complete.bindings() =~= user_bindings(head, entity));
    complete
}

/// Words the statements for users.
#[derive(Debug)]
pub struct UserRepository {}

impl UserRepository {
    pub fn new() -> (r: UserRepository) {
        UserRepository {  }
    }

    /// The read that fetches the user with the given user name.
    pub fn find_user_by_username(&self, username: &String) -> (op: Operation)
        ensures
            op.statement@ == "MATCH (u:User {username: $username}) RETURN u"@,
            op.params is Some,
            bound(op.params) == seq![("username"@, Scalar::Text(username@))],
            !op.is_write,
            op.pull_limit == -1,
    {
        let params = Properties::new().bind("username", PropertyValue::Text(username.clone()));
        crate::client::fetch(
            String::from_str("MATCH (u:User {username: $username}) RETURN u"),
            params,
        )
    }
}

impl ReadRepository<User> for UserRepository {
    fn find_by_id(&self, id: &u32) -> (op: Operation) {
        crate::client::fetch_by_id::<User>(id)
    }
}

impl ReadAllRepository<User> for UserRepository {
    fn find_all(&self) -> (op: Operation) {
        crate::client::fetch_all::<User>()
    }
}

impl WriteRepository<User> for UserRepository {
    open spec fn add_text() -> Seq<char> {
        "CREATE (u:User {username: $username, display_name: $display_name, pwd_hash: $pwd_hash, is_admin: $is_admin, points: $points }) RETURN u"@
    }

    open spec fn add_bindings(entity: &User) -> Option<Seq<(Seq<char>, Scalar)>> {
        Some(user_bindings(Seq::empty(), entity))
    }

    fn add(&self, new_entity: &User) -> (r: Result<Operation, DbActionError>) {
        let params = bind_user(Properties::new(), new_entity);
        let statement = String::from_str(
            "CREATE (u:User {username: $username, display_name: $display_name, pwd_hash: $pwd_hash, is_admin: $is_admin, points: $points }) RETURN u",
        );
        Ok(crate::client::create(statement, params))
    }

    fn delete(&self, entity_to_delete: &User) -> (r: Result<Operation, DbActionError>) {
        crate::client::delete::<User>(entity_to_delete)
    }
}

impl ModifyRepository<User> for UserRepository {
    open spec fn update_text() -> Seq<char> {
        "MATCH (u:User) WHERE id(u) = $id SET u.username = $username, u.display_name = $display_name, u.pwd_hash = $pwd_hash, u.is_admin = $is_admin, u.points = $points RETURN u"@
    }

    open spec fn update_bindings(entity: &User, id: u32) -> Option<Seq<(Seq<char>, Scalar)>> {
        Some(user_bindings(seq![("id"@, Scalar::Integer(id as i64))], entity))
    }

    fn update(&self, entity_with_update_values: &User) -> (r: Result<Operation, DbActionError>) {
        let id = match entity_with_update_values.get_id() {
            None => {
                return Err(
                    DbActionError::Unpersisted {
                        entity: entity_ref(entity_with_update_values),
                        action: Action::Update,
                    },
                );
            },
            Some(id) => *id,
        };
        let params = Properties::new().bind("id", PropertyValue::Integer(id.to_identity()));
        let params = bind_user(params, entity_with_update_values);
        let statement = String::from_str(
            "MATCH (u:User) WHERE id(u) = $id SET u.username = $username, u.display_name = $display_name, u.pwd_hash = $pwd_hash, u.is_admin = $is_admin, u.points = $points RETURN u",
        );
        Ok(crate::client::update(statement, params))
    }
}

/// A user comes back from the store as it went in: a node that holds what
/// `add` binds for a user decodes to a user with the same names, admin flag,
/// points and password hash; a user without password comes back without
/// one.
pub proof fn lemma_user_round_trip(user: User, node: GraphNode, now: Timestamp, decoded: User)
    requires
        <UserRepository as WriteRepository<User>>::add_bindings(&user) == Some(
            node.properties.bindings(),
        ),
        User::decoded(&node, now, &decoded),
    ensures
        decoded.username@ == user.username@,
        decoded.display_name@ == user.display_name@,
        decoded.is_admin == user.is_admin,
        decoded.points == user.points,
        opt_text(decoded.pwd_hash) == opt_text(user.pwd_hash),
{
    reveal_strlit("username");
    reveal_strlit("display_name");
    reveal_strlit("pwd_hash");
    reveal_strlit("is_admin");
    reveal_strlit("points");
    assert("username"@.len() == 8 && "display_name"@.len() == 12 && "pwd_hash"@.len() == 8
        && "is_admin"@.len() == 8 && "points"@.len() == 6);
    assert("username"@[0] == 'u' && "pwd_hash"@[0] == 'p' && "is_admin"@[0] == 'i');
    let entries = node.properties.entries();
    let bindings = node.properties.bindings();
    assert(bindings =~= user_bindings(Seq::empty(), &user));
    assert(bindings.len() == 5);
    assert(bindings[0] == (entries[0].0@, entries[0].1@));
    assert(bindings[1] == (entries[1].0@, entries[1].1@));
    assert(bindings[2] == (entries[2].0@, entries[2].1@));
    assert(bindings[3] == (entries[3].0@, entries[3].1@));
    assert(bindings[4] == (entries[4].0@, entries[4].1@));
    lemma_lookup_bound(entries, 0);
    lemma_lookup_bound(entries, 1);
    lemma_lookup_bound(entries, 2);
    lemma_lookup_bound(entries, 3);
    lemma_lookup_bound(entries, 4);
    let points = user.points;
    assert((points as i64) as u16 == points) by (bit_vector);
}

/// An update replaces every stored field of a user: a node whose properties
/// are what `update` binds after the identity decodes to a user with the
/// same names, admin flag, points and password hash as the one handed to
/// `update`.
pub proof fn lemma_user_update_round_trip(
    user: User,
    id: u32,
    node: GraphNode,
    now: Timestamp,
    decoded: User,
)
    requires
        <UserRepository as ModifyRepository<User>>::update_bindings(&user, id) == Some(
            seq![("id"@, Scalar::Integer(id as i64))] + node.properties.bindings(),
        ),
        User::decoded(&node, now, &decoded),
    ensures
        decoded.username@ == user.username@,
        decoded.display_name@ == user.display_name@,
        decoded.is_admin == user.is_admin,
        decoded.points == user.points,
        opt_text(decoded.pwd_hash) == opt_text(user.pwd_hash),
{
    let head = seq![("id"@, Scalar::Integer(id as i64))];
    let written = user_bindings(Seq::empty(), &user);
    assert(user_bindings(head, &user) =~= head + written);
    assert((head + written).skip(1) =~= written);
    assert((head + node.properties.bindings()).skip(1) =~= node.properties.bindings());
    lemma_user_round_trip(user, node, now, decoded);
}

/// An update replaces every stored field of a task: a node whose properties
/// are what `update` binds after the identity decodes to a task with the
/// same name, points and enabled flag as the one handed to `update`.
pub proof fn lemma_task_update_round_trip(
    task: Task,
    id: u32,
    node: GraphNode,
    now: Timestamp,
    decoded: Task,
)
    requires
        <TaskRepository as ModifyRepository<Task>>::update_bindings(&task, id) == Some(
            seq![("id"@, Scalar::Integer(id as i64))] + node.properties.bindings(),
        ),
        Task::decoded(&node, now, &decoded),
    ensures
        decoded.name@ == task.name@,
        decoded.points == task.points,
        decoded.enabled == task.enabled,
{
    let head = seq![("id"@, Scalar::Integer(id as i64))];
    let written = <TaskRepository as WriteRepository<Task>>::add_bindings(&task).unwrap();
    assert(<TaskRepository as ModifyRepository<Task>>::update_bindings(&task, id).unwrap() =~= head
        + written);
    assert((head + written).skip(1) =~= written);
    assert((head + node.properties.bindings()).skip(1) =~= node.properties.bindings());
    lemma_task_round_trip(task, node, now, decoded);
}

/// A team's name comes back from the store as it went in.
pub proof fn lemma_team_round_trip(team: Team, node: GraphNode, now: Timestamp, decoded: Team)
    requires
        <TeamRepository as WriteRepository<Team>>::add_bindings(&team) == Some(
            node.properties.bindings(),
        ),
        Team::decoded(&node, now, &decoded),
    ensures
        decoded.name@ == team.name@,
{
    let entries = node.properties.entries();
    let bindings = node.properties.bindings();
    assert(bindings.len() == 1);
    assert(bindings[0] == (entries[0].0@, entries[0].1@));
    lemma_lookup_bound(entries, 0);
}

/// Words the statements for teams.
#[derive(Debug)]
pub struct TeamRepository {}

impl TeamRepository {
    pub fn new() -> (r: TeamRepository) {
        TeamRepository {  }
    }

    /// The read that fetches the `MEMBER` edges of a team with the users at
    /// their other ends. Refused for a team without identity.
    pub fn members_of(&self, team: &Team) -> (r: Result<Operation, DbActionError>)
        ensures
            fetches_relations_of_node::<Team, User>(team, "MEMBER"@, r),
    {
        let name = String::from_str("MEMBER");
        crate::client::fetch_relations_of_node_of_type::<Team, User>(team, &name)
    }

    /// Makes the targets of the given `MEMBER` relations the members of the
    /// team, in their order.
    pub fn fill_team_members(&self, team: &mut Team, relations: Vec<Relation<Team, User>>)
        ensures
            final(team).members@.len() == relations@.len(),
            forall|i: int|
                0 <= i < relations@.len() ==> (#[trigger] final(team).members@[i])
                    == relations@[i].target(),
            final(team).id == old(team).id,
            final(team).name == old(team).name,
            final(team).manager == old(team).manager,
    {
        let ghost whole = relations@;
        let mut rest = reversed(relations);
        let mut members: Vec<User> = Vec::new();
        while rest.len() > 0
            invariant
                rest@.len() + members@.len() == whole.len(),
                rest@ == whole.reverse().take(rest@.len() as int),
                forall|i: int| 0 <= i < members@.len() ==> (#[trigger] members@[i]) == whole[i].target(),
            decreases rest.len(),
        {
            let ghost k = rest@.len() as int;
            let ghost before = members@;
            let relation = rest.pop().unwrap();
            proof {
                assert(relation == whole.reverse()[k - 1]);
                assert(whole.reverse()[k - 1] == whole[whole.len() - k]);
                assert(rest@ =~= whole.reverse().take(k - 1));
            }
            let ends = relation.into_nodes();
            members.push(ends.1);
            proof {
                assert forall|i: int| 0 <= i < members@.len() implies (#[trigger] members@[i])
                    == whole[i].target() by {
                    if i < before.len() {
                        assert(members@[i] == before[i]);
                    }
                }
            }
        }
        team.members = members;
    }

    /// The write that makes `manager` the manager of a team that was just
    /// created, with the edge `MANAGED_BY`. Refused where either of them has
    /// no identity.
    pub fn manage(&self, created: Team, manager: User) -> (r: Result<
        (Operation, Relation<Team, User>),
        DbActionError,
    >)
        ensures
            creates_relationship(created, manager, "MANAGED_BY"@, None, r),
    {
        let name = String::from_str("MANAGED_BY");
        crate::client::create_relationship(created, manager, &name, None)
    }

    /// The team at the start of a `MANAGED_BY` relation, with the user at
    /// its end as its manager and only member.
    pub fn managed(&self, relation: Relation<Team, User>) -> (r: Team)
        ensures
            r.id == relation.source().id,
            r.name == relation.source().name,
            r.manager == relation.target(),
            r.members@.len() == 1,
            same_user(&r.members@[0], &relation.target()),
    {
        let ends = relation.into_nodes();
        let team = ends.0;
        let manager = ends.1;
        let mut members: Vec<User> = Vec::new();
        members.push(manager.clone());
        Team { id: team.id, name: team.name, manager, members }
    }

    /// What adding a team comes to, given what creating its node and then
    /// its `MANAGED_BY` edge came to: the failure of either step is the
    /// failure of the whole, that of the node first; nothing is tried again
    /// and nothing is undone. Where both succeeded it is the team of the
    /// relation, under its manager.
    pub fn added_team(
        created: Result<Team, DbActionError>,
        managed: Result<Relation<Team, User>, DbActionError>,
    ) -> (r: Result<Team, DbActionError>)
        ensures
            match created {
                Err(e) => r == Err::<Team, DbActionError>(e),
                Ok(_) => match managed {
                    Err(e) => r == Err::<Team, DbActionError>(e),
                    Ok(relation) => {
                        &&& r matches Ok(team)
                        &&& team.id == relation.source().id
                        &&& team.name == relation.source().name
                        &&& team.manager == relation.target()
                        &&& team.members@.len() == 1
                        &&& same_user(&team.members@[0], &relation.target())
                    },
                },
            },
    {
        match created {
            Err(e) => Err(e),
            Ok(_) => match managed {
                Err(e) => Err(e),
                Ok(relation) => {
                    let repository = TeamRepository::new();
                    Ok(repository.managed(relation))
                },
            },
        }
    }
}

impl ReadRepository<Team> for TeamRepository {
    fn find_by_id(&self, id: &u32) -> (op: Operation) {
        crate::client::fetch_by_id::<Team>(id)
    }
}

impl ReadAllRepository<Team> for TeamRepository {
    fn find_all(&self) -> (op: Operation) {
        crate::client::fetch_all::<Team>()
    }
}

impl WriteRepository<Team> for TeamRepository {
    open spec fn add_text() -> Seq<char> {
        "CREATE (u:Team {name: $name }) RETURN u"@
    }

    open spec fn add_bindings(entity: &Team) -> Option<Seq<(Seq<char>, Scalar)>> {
        Some(seq![("name"@, Scalar::Text(entity.name@))])
    }

    fn add(&self, new_entity: &Team) -> (r: Result<Operation, DbActionError>) {
        let params = Properties::new().bind("name", PropertyValue::Text(new_entity.name.clone()));
        let statement = String::from_str("CREATE (u:Team {name: $name }) RETURN u");
        Ok(crate::client::create(statement, params))
    }

    fn delete(&self, entity_to_delete: &Team) -> (r: Result<Operation, DbActionError>) {
        crate::client::delete::<Team>(entity_to_delete)
    }
}

impl ModifyRepository<Team> for TeamRepository {
    open spec fn update_text() -> Seq<char> {
        "MATCH (u:Team) WHERE id(u) = $id SET u.name = $name RETURN u"@
    }

    open spec fn update_bindings(entity: &Team, id: u32) -> Option<Seq<(Seq<char>, Scalar)>> {
        Some(seq![("id"@, Scalar::Integer(id as i64)), ("name"@, Scalar::Text(entity.name@))])
    }

    fn update(&self, entity_with_update_values: &Team) -> (r: Result<Operation, DbActionError>) {
        let id = match entity_with_update_values.get_id() {
            None => {
                return Err(
                    DbActionError::Unpersisted {
                        entity: entity_ref(entity_with_update_values),
                        action: Action::Update,
                    },
                );
            },
            Some(id) => *id,
        };
        proof {
            reveal_strlit("id");
            reveal_strlit("name");
            assert("id"@.len() == 2 && "name"@.len() == 4);
        }
        let params = Properties::new().bind("id", PropertyValue::Integer(id.to_identity()));
        let params = params.bind(
            "name",
            PropertyValue::Text(entity_with_update_values.name.clone()),
        );
        assert(params.bindings() =~= Self::update_bindings(entity_with_update_values, id).unwrap());
        let statement = String::from_str(
            "MATCH (u:Team) WHERE id(u) = $id SET u.name = $name RETURN u",
        );
        Ok(crate::client::update(statement, params))
    }
}

/// Words the statements for sessions.
#[derive(Debug)]
pub struct SessionRepository {}

impl SessionRepository {
    pub fn new() -> (r: SessionRepository) {
        SessionRepository {  }
    }

    /// The read that fetches the session with the given token.
    pub fn find_session_by_session_id(&self, session_id: &String) -> (op: Operation)
        ensures
            op.statement@ == "MATCH (u:Session {session_id: $session_id}) RETURN u"@,
            op.params is Some,
            bound(op.params) == seq![("session_id"@, Scalar::Text(session_id@))],
            !op.is_write,
            op.pull_limit == -1,
    {
        let params = Properties::new().bind("session_id", PropertyValue::Text(session_id.clone()));
        crate::client::fetch(
            String::from_str("MATCH (u:Session {session_id: $session_id}) RETURN u"),
            params,
        )
    }

    /// The write that ties a session that was just created to its user, with
    /// the edge `OWNED_BY`. Refused where either of them has no identity.
    pub fn own(&self, created: Session, user: User) -> (r: Result<
        (Operation, Relation<Session, User>),
        DbActionError,
    >)
        ensures
            creates_relationship(created, user, "OWNED_BY"@, None, r),
    {
        let name = String::from_str("OWNED_BY");
        crate::client::create_relationship(created, user, &name, None)
    }

    /// The session at the start of an `OWNED_BY` relation, with the user at
    /// its end as the session's user.
    pub fn owned(&self, relation: Relation<Session, User>) -> (r: Session)
        ensures
            r.user == relation.target(),
            r.id == relation.source().id,
            r.session_id == relation.source().session_id,
            r.started == relation.source().started,
            r.refreshed == relation.source().refreshed,
    {
        let ends = relation.into_nodes();
        let mut session = ends.0;
        session.user = ends.1;
        session
    }

    /// What adding a session comes to, given what creating its node and
    /// then its `OWNED_BY` edge came to: the failure of either step is the
    /// failure of the whole, that of the node first; nothing is tried again
    /// and nothing is undone. Where both succeeded it is the session of the
    /// relation, with its user.
    pub fn added_session(
        created: Result<Session, DbActionError>,
        owned: Result<Relation<Session, User>, DbActionError>,
    ) -> (r: Result<Session, DbActionError>)
        ensures
            match created {
                Err(e) => r == Err::<Session, DbActionError>(e),
                Ok(_) => match owned {
                    Err(e) => r == Err::<Session, DbActionError>(e),
                    Ok(relation) => {
                        &&& r matches Ok(session)
                        &&& session.user == relation.target()
                        &&& session.id == relation.source().id
                        &&& session.session_id == relation.source().session_id
                        &&& session.started == relation.source().started
                        &&& session.refreshed == relation.source().refreshed
                    },
                },
            },
    {
        match created {
            Err(e) => Err(e),
            Ok(_) => match owned {
                Err(e) => Err(e),
                Ok(relation) => {
                    let repository = SessionRepository::new();
                    Ok(repository.owned(relation))
                },
            },
        }
    }
}

impl WriteRepository<Session> for SessionRepository {
    open spec fn add_text() -> Seq<char> {
        "CREATE (u:Session {session_id: $session_id, started: $started, refreshed: $refreshed }) RETURN u"@
    }

    open spec fn add_bindings(entity: &Session) -> Option<Seq<(Seq<char>, Scalar)>> {
        match (
            utc_display(entity.started.seconds, entity.started.nanos),
            utc_display(entity.refreshed.seconds, entity.refreshed.nanos),
        ) {
            (Some(started), Some(refreshed)) => Some(
                seq![
                    ("session_id"@, Scalar::Text(entity.session_id@)),
                    ("started"@, Scalar::Text(started)),
                    ("refreshed"@, Scalar::Text(refreshed)),
                ],
            ),
            _ => None,
        }
    }

    fn add(&self, new_entity: &Session) -> (r: Result<Operation, DbActionError>) {
        let started = match new_entity.started.to_text() {
            Some(text) => text,
            None => {
                return Err(DbActionError::UnwritableTimestamp);
            },
        };
        let refreshed = match new_entity.refreshed.to_text() {
            Some(text) => text,
            None => {
                return Err(DbActionError::UnwritableTimestamp);
            },
        };
        proof {
            reveal_strlit("session_id");
            reveal_strlit("started");
            reveal_strlit("refreshed");
            assert("session_id"@.len() == 10 && "started"@.len() == 7 && "refreshed"@.len() == 9);
        }
        let params = Properties::new().bind(
            "session_id",
            PropertyValue::Text(new_entity.session_id.clone()),
        );
        let params = params.bind("started", PropertyValue::Text(started));
        assert(params.bindings() =~= seq![
            ("session_id"@, Scalar::Text(new_entity.session_id@)),
            ("started"@, Scalar::Text(started@)),
        ]);
        let params = params.bind("refreshed", PropertyValue::Text(refreshed));
        assert(params.bindings() =~= Self::add_bindings(new_entity).unwrap());
        let statement = String::from_str(
            "CREATE (u:Session {session_id: $session_id, started: $started, refreshed: $refreshed }) RETURN u",
        );
        Ok(crate::client::create(statement, params))
    }

    fn delete(&self, entity_to_delete: &Session) -> (r: Result<Operation, DbActionError>) {
        crate::client::delete::<Session>(entity_to_delete)
    }
}

impl ModifyRepository<Session> for SessionRepository {
    open spec fn update_text() -> Seq<char> {
        "MATCH (u:Session) WHERE id(u) = $id SET u.refreshed = $refreshed RETURN u"@
    }

    open spec fn update_bindings(entity: &Session, id: u32) -> Option<Seq<(Seq<char>, Scalar)>> {
        match utc_display(entity.refreshed.seconds, entity.refreshed.nanos) {
            Some(refreshed) => Some(
                seq![("id"@, Scalar::Integer(id as i64)), ("refreshed"@, Scalar::Text(refreshed))],
            ),
            None => None,
        }
    }

    fn update(&self, entity_with_update_values: &Session) -> (r: Result<Operation, DbActionError>) {
        let id = match entity_with_update_values.get_id() {
            None => {
                return Err(
                    DbActionError::Unpersisted {
                        entity: entity_ref(entity_with_update_values),
                        action: Action::Update,
                    },
                );
            },
            Some(id) => *id,
        };
        let refreshed = match entity_with_update_values.refreshed.to_text() {
            Some(text) => text,
            None => {
                return Err(DbActionError::UnwritableTimestamp);
            },
        };
        proof {
            reveal_strlit("id");
            reveal_strlit("refreshed");
            assert("id"@.len() == 2 && "refreshed"@.len() == 9);
        }
        let params = Properties::new().bind("id", PropertyValue::Integer(id.to_identity()));
        let params = params.bind("refreshed", PropertyValue::Text(refreshed));
        assert(params.bindings() =~= Self::update_bindings(entity_with_update_values, id).unwrap());
        let statement = String::from_str(
            "MATCH (u:Session) WHERE id(u) = $id SET u.refreshed = $refreshed RETURN u",
        );
        Ok(crate::client::update(statement, params))
    }
}

/// A session comes back from the store as it went in, as far as the written
/// timestamps read back as the instants they were written for: a node that
/// holds what `add` binds for a session then decodes to a session with the
/// same token and timestamps.
pub proof fn lemma_session_round_trip(
    session: Session,
    node: GraphNode,
    now: Timestamp,
    decoded: Session,
)
    requires
        <SessionRepository as WriteRepository<Session>>::add_bindings(&session) == Some(
            node.properties.bindings(),
        ),
        Session::decoded(&node, now, &decoded),
        rfc3339_instant(utc_display(session.started.seconds, session.started.nanos).unwrap())
            == Some((session.started.seconds, session.started.nanos)),
        rfc3339_instant(utc_display(session.refreshed.seconds, session.refreshed.nanos).unwrap())
            == Some((session.refreshed.seconds, session.refreshed.nanos)),
    ensures
        decoded.session_id@ == session.session_id@,
        decoded.started == session.started,
        decoded.refreshed == session.refreshed,
{
    reveal_strlit("session_id");
    reveal_strlit("started");
    reveal_strlit("refreshed");
    assert("session_id"@.len() == 10 && "started"@.len() == 7 && "refreshed"@.len() == 9);
    let entries = node.properties.entries();
    let bindings = node.properties.bindings();
    assert(bindings.len() == 3);
    assert(bindings[0] == (entries[0].0@, entries[0].1@));
    assert(bindings[1] == (entries[1].0@, entries[1].1@));
    assert(bindings[2] == (entries[2].0@, entries[2].1@));
    lemma_lookup_bound(entries, 0);
    lemma_lookup_bound(entries, 1);
    lemma_lookup_bound(entries, 2);
}

/// The operations on relations between any two kinds of entity, for callers
/// that should not see the client.
#[derive(Debug)]
pub struct RelationRepository {}

impl RelationRepository {
    pub fn new() -> (r: RelationRepository) {
        RelationRepository {  }
    }

    /// The write that creates the edge `name` from `source` to `target`, and
    /// the relation it is about.
    pub fn create_relationship<S: Entity, T: Entity>(
        &self,
        source: S,
        target: T,
        name: &String,
        params_opt: Option<Properties>,
    ) -> (r: Result<(Operation, Relation<S, T>), DbActionError>)
        ensures
            creates_relationship(source, target, name@, params_opt, r),
    {
        crate::client::create_relationship(source, target, name, params_opt)
    }

    /// The read that fetches the edges `name` of `source` with the nodes at
    /// both ends.
    pub fn fetch_relations_of_node_of_type<S: Entity, T: Entity>(&self, source: &S, name: &String) -> (r:
        Result<Operation, DbActionError>)
        ensures
            fetches_relations_of_node::<S, T>(source, name@, r),
    {
        crate::client::fetch_relations_of_node_of_type::<S, T>(source, name)
    }

    /// The read that fetches every edge `name` between the two kinds.
    pub fn fetch_relations_of_type<S: Entity, T: Entity>(&self, name: &String) -> (op: Operation)
        ensures
            op.statement@ == relations_of_type_text(S::tag(), name@, T::tag()),
            op.params is Some,
            bound(op.params).len() == 0,
            !op.is_write,
            op.pull_limit == -1,
    {
        crate::client::fetch_relations_of_type::<S, T>(name)
    }

    /// The read that fetches one edge `name` between the two kinds.
    pub fn fetch_single_relation<S: Entity, T: Entity>(&self, name: &String) -> (op: Operation)
        ensures
            op.statement@ == relations_of_type_text(S::tag(), name@, T::tag()),
            op.params is Some,
            bound(op.params).len() == 0,
            !op.is_write,
            op.pull_limit == 1,
    {
        crate::client::fetch_single_relation::<S, T>(name)
    }

    /// The write that removes the edge `name` between `source` and `target`.
    pub fn delete_relation<S: Entity, T: Entity>(&self, source: &S, target: &T, name: &String) -> (r:
        Result<Operation, DbActionError>)
        ensures
            deletes_relation::<S, T>(source, target, name@, r),
    {
        crate::client::delete_relation::<S, T>(source, target, name)
    }
}

} // verus!
