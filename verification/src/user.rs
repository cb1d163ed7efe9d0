//! Users, their passwords, and the teams they form.

use vstd::prelude::*;
use crate::entity::{DecodeError, Entity, FromInput};
use crate::graph::GraphNode;
use crate::task::{Score, Task};
use crate::timestamp::Timestamp;
use crate::util::{
    bool_or,
    get_bool,
    get_string,
    get_u16,
    text_at,
    text_or,
    try_get_string,
    u16_or,
};

verus! {

/// What `bcrypt::verify` answers for a password and a stored hash: whether
/// they match, or `None` where it rejects the hash as malformed.
pub uninterp spec fn bcrypt_verdict(password: Seq<char>, hash: Seq<char>) -> Option<bool>;

/// Calls `bcrypt::verify`. Nothing is proved of bcrypt: the contract only
/// names its answer, and turns its error into `None`.
#[verifier::external_body]
fn bcrypt_verify(password: &str, hash: &str) -> (r: Option<bool>)
    ensures
        r == bcrypt_verdict(password@, hash@),
{
    match bcrypt::verify(password, hash) {
        Ok(matches) => Some(matches),
        Err(_) => None,
    }
}

/// Calls `bcrypt::hash` with the default cost. The salt is random, so the
/// hash itself is not named; the contract claims only that `bcrypt::verify`
/// accepts the password for it, since it reads cost and salt back out of the
/// hash and hashes the password with them again. `None` stands for bcrypt's
/// error.
#[verifier::external_body]
pub(crate) fn bcrypt_hash(password: &str) -> (r: Option<String>)
    ensures
        r matches Some(hash) ==> bcrypt_verdict(password@, hash@) == Some(true),
{
    match bcrypt::hash(password, bcrypt::DEFAULT_COST) {
        Ok(hash) => Some(hash),
        Err(_) => None,
    }
}

/// Somebody who scores tasks.
#[derive(Debug)]
pub struct User {
    pub id: Option<u32>,
    pub username: String,
    pub display_name: String,
    pub is_admin: bool,
    pub points: u16,
    pub scores: Vec<Score>,
    pub pwd_hash: Option<String>,
}

/// The characters of an optional text.
pub open spec fn opt_text(text: Option<String>) -> Option<Seq<char>> {
    match text {
        Some(s) => Some(s@),
        None => None,
    }
}

/// True when two users agree in every field.
pub open spec fn same_user(a: &User, b: &User) -> bool {
    &&& a.id == b.id
    &&& a.username@ == b.username@
    &&& a.display_name@ == b.display_name@
    &&& a.is_admin == b.is_admin
    &&& a.points == b.points
    &&& a.scores@ == b.scores@
    &&& opt_text(a.pwd_hash) == opt_text(b.pwd_hash)
}

/// True of the placeholder that stands in where a related user is unknown.
pub open spec fn is_default_user(user: &User) -> bool {
    &&& user.id is None
    &&& user.username@ == "guyincognito"@
    &&& user.display_name@ == "Guy Incognito"@
    &&& user.is_admin
    &&& user.points == 9
    &&& user.scores@.len() == 0
    &&& user.pwd_hash is None
}

/// Whether a password is accepted: anything where no hash is stored, nothing
/// where a hash is stored and no password is offered, and otherwise what
/// bcrypt makes of the two.
pub open spec fn password_verdict(hash: Option<String>, offered: Option<String>) -> Option<bool> {
    match hash {
        Some(h) => match offered {
            Some(p) => bcrypt_verdict(p@, h@),
            None => Some(false),
        },
        None => Some(true),
    }
}

/// True when a hash is stored and bcrypt accepts `password` for it.
pub open spec fn accepts(hash: Option<String>, password: Seq<char>) -> bool {
    match hash {
        Some(h) => bcrypt_verdict(password, h@) == Some(true),
        None => false,
    }
}

impl User {
    /// A user without points, scores or password.
    pub fn new(id: Option<u32>, username: String, display_name: String, is_admin: bool) -> (r: User)
        ensures
            r.id == id,
            r.username == username,
            r.display_name == display_name,
            r.is_admin == is_admin,
            r.points == 0,
            r.scores@.len() == 0,
            r.pwd_hash is None,
    {
        User { id, username, display_name, points: 0, scores: Vec::new(), pwd_hash: None, is_admin }
    }

    /// The placeholder used where a related user is not known.
    pub fn get_default_user() -> (r: User)
        ensures
            is_default_user(&r),
    {
        User {
            id: None,
            display_name: String::from_str("Guy Incognito"),
            is_admin: true,
            points: 9,
            pwd_hash: None,
            scores: Vec::new(),
            username: String::from_str("guyincognito"),
        }
    }

    /// Credits the user with the points of `task` and records the score.
    pub fn score_task(&mut self, task: Task, now: Timestamp)
        requires
            old(self).points + task.points <= u16::MAX,
        ensures
            final(self).points == old(self).points + task.points,
            final(self).scores@ == old(self).scores@.push(
                Score { task, points: task.points, scored_at: now },
            ),
            final(self).id == old(self).id,
            final(self).username == old(self).username,
            final(self).display_name == old(self).display_name,
            final(self).is_admin == old(self).is_admin,
            final(self).pwd_hash == old(self).pwd_hash,
    {
        self.points = self.points + task.points;
        let score = Score::new(task, now);
        self.scores.push(score);
    }

    /// Stores the hash of `password`, against which that password is then
    /// verified. Answers whether a hash could be made; where none could,
    /// the user is left as it was.
    pub fn set_password(&mut self, password: String) -> (stored: bool)
        ensures
            stored ==> final(self).pwd_hash is Some,
            stored ==> accepts(final(self).pwd_hash, password@),
            !stored ==> final(self).pwd_hash == old(self).pwd_hash,
            final(self).id == old(self).id,
            final(self).username == old(self).username,
            final(self).display_name == old(self).display_name,
            final(self).is_admin == old(self).is_admin,
            final(self).points == old(self).points,
            final(self).scores == old(self).scores,
    {
        // Whether a hash can be made is for bcrypt to say, which draws a
        // fresh salt for every call. What becomes of the outcome is said by
        // `store_password_hash`.
        let hashed = bcrypt_hash(password.as_str());
        self.store_password_hash(hashed)
    }

    /// Takes what hashing a password came to: stores the hash where there is
    /// one and says so; where there is none, the user is left as it was.
    pub fn store_password_hash(&mut self, hashed: Option<String>) -> (stored: bool)
        ensures
            stored == hashed is Some,
            final(self).pwd_hash == match hashed {
                Some(hash) => Some(hash),
                None => old(self).pwd_hash,
            },
            final(self).id == old(self).id,
            final(self).username == old(self).username,
            final(self).display_name == old(self).display_name,
            final(self).is_admin == old(self).is_admin,
            final(self).points == old(self).points,
            final(self).scores == old(self).scores,
    {
        match hashed {
            Some(hash) => {
                self.pwd_hash = Some(hash);
                true
            },
            None => false,
        }
    }

    /// Checks an offered password against the stored hash. `None` where the
    /// stored hash is not a bcrypt hash.
    pub fn verify_password(&self, password_to_verify: &Option<String>) -> (r: Option<bool>)
        ensures
            r == password_verdict(self.pwd_hash, *password_to_verify),
    {
        match &self.pwd_hash {
            Some(hash) => match password_to_verify {
                Some(pwd_to_verify) => bcrypt_verify(pwd_to_verify.as_str(), hash.as_str()),
                None => Some(false),
            },
            None => Some(true),
        }
    }
}

impl PartialEq for User {
    /// Two users are the same user when they carry the same identity.
    fn eq(&self, other: &User) -> (r: bool) {
        match (self.id, other.id) {
            (Some(a), Some(b)) => a == b,
            (None, None) => true,
            _ => false,
        }
    }
}

impl vstd::std_specs::cmp::PartialEqSpecImpl for User {
    open spec fn obeys_eq_spec() -> bool {
        true
    }

    open spec fn eq_spec(&self, other: &User) -> bool {
        self.id == other.id
    }
}

impl Clone for User {
    fn clone(&self) -> (r: User)
        ensures
            same_user(&r, self),
    {
        let mut scores: Vec<Score> = Vec::new();
        let mut i: usize = 0;
        while i < self.scores.len()
            invariant
                i <= self.scores.len(),
                scores@ == self.scores@.take(i as int),
            decreases self.scores.len() - i,
        {
            scores.push(self.scores[i].clone());
            proof {
                assert(scores@ =~= self.scores@.take(i as int + 1));
            }
            i = i + 1;
        }
        proof {
            assert(self.scores@.take(i as int) =~= self.scores@);
        }
        let pwd_hash = match &self.pwd_hash {
            Some(h) => Some(h.clone()),
            None => None,
        };
        User {
            id: self.id,
            username: self.username.clone(),
            display_name: self.display_name.clone(),
            is_admin: self.is_admin,
            points: self.points,
            scores,
            pwd_hash,
        }
    }
}

impl Entity for User {
    open spec fn tag() -> Seq<char> {
        "User"@
    }

    open spec fn id(&self) -> Option<u32> {
        self.id
    }

    /// Names default to `N/A`; a user is no admin and has no points unless
    /// the node says otherwise; scores are not stored in the node.
    open spec fn decoded(node: &GraphNode, now: Timestamp, entity: &User) -> bool {
        &&& entity.username@ == text_or(&node.properties, "username"@, "N/A"@)
        &&& opt_text(entity.pwd_hash) == text_at(&node.properties, "pwd_hash"@)
        &&& entity.display_name@ == text_or(&node.properties, "display_name"@, "N/A"@)
        &&& entity.is_admin == bool_or(&node.properties, "is_admin"@, false)
        &&& entity.points == u16_or(&node.properties, "points"@, 0)
        &&& entity.scores@.len() == 0
    }

    open spec fn composed(
        nodes: Seq<GraphNode>,
        own: &GraphNode,
        now: Timestamp,
        entity: &User,
    ) -> bool {
        Self::decoded(own, now, entity)
    }

    fn get_id(&self) -> (r: &Option<u32>) {
        &self.id
    }

    fn get_node_label() -> (r: &'static str) {
        "User"
    }

    fn from_node(node: &GraphNode, now: Timestamp) -> (r: User) {
        #[verifier::truncate]
        let id = node.identity as u32;
        let username = get_string(&node.properties, "username", "N/A");
        let pwd_hash = try_get_string(&node.properties, "pwd_hash");
        let display_name = get_string(&node.properties, "display_name", "N/A");
        let is_admin = get_bool(&node.properties, "is_admin", false);
        let points = get_u16(&node.properties, "points", 0);
        User { id: Some(id), username, display_name, is_admin, points, scores: Vec::new(), pwd_hash }
    }

    fn try_from_input(input: &FromInput, now: Timestamp) -> (r: Result<User, DecodeError>) {
        let own = input.nodes_labelled(User::get_node_label());
        if own.len() == 0 {
            Err(DecodeError::NoNodes)
        } else if own.len() != 1 {
            Err(DecodeError::UnusualNumberOfNodes(own.len()))
        } else {
            Ok(User::from_node(own[0], now))
        }
    }
}

/// A group of users under a manager. Who manages and who belongs is stored
/// as relationships, not in the team's node.
#[derive(Debug)]
pub struct Team {
    pub id: Option<u32>,
    pub name: String,
    pub manager: User,
    pub members: Vec<User>,
}

/// True when some member carries the identity `id`.
pub open spec fn has_member(members: Seq<User>, id: u32) -> bool {
    exists|i: int| 0 <= i < members.len() && (#[trigger] members[i]).id == Some(id)
}

impl Team {
    /// A team whose only member is its manager.
    pub fn new(id: Option<u32>, name: String, manager: User) -> (r: Team)
        ensures
            r.id == id,
            r.name == name,
            r.manager == manager,
            r.members@.len() == 1,
            same_user(&r.members@[0], &manager),
    {
        let mut members: Vec<User> = Vec::new();
        members.push(manager.clone());
        Team { id, name, manager, members }
    }

    /// Whether `user` is persisted and one of the members carries its
    /// identity.
    pub fn contains(&self, user: &User) -> (r: bool)
        ensures
            r == match user.id {
                Some(id) => has_member(self.members@, id),
                None => false,
            },
    {
        match user.id {
            None => false,
            Some(id) => {
                let mut i: usize = 0;
                while i < self.members.len()
                    invariant
                        i <= self.members.len(),
                        user.id == Some(id),
                        !has_member(self.members@.take(i as int), id),
                    decreases self.members.len() - i,
                {
                    let found = match self.members[i].id {
                        Some(member_id) => member_id == id,
                        None => false,
                    };
                    if found {
                        proof {
                            assert(self.members@[i as int].id == Some(id));
                        }
                        return true;
                    }
                    proof {
                        let next = self.members@.take(i as int + 1);
                        if has_member(next, id) {
                            let k = choose|k: int| 0 <= k < next.len() && (#[trigger] next[k]).id == Some(id);
                            if k < i {
                                assert(self.members@.take(i as int)[k].id == Some(id));
                            }
                        }
                    }
                    i = i + 1;
                }
                proof {
                    assert(self.members@.take(i as int) =~= self.members@);
                }
                false
            },
        }
    }
}

/// True when two teams agree in every field.
pub open spec fn same_team(a: &Team, b: &Team) -> bool {
    &&& a.id == b.id
    &&& a.name@ == b.name@
    &&& same_user(&a.manager, &b.manager)
    &&& a.members@.len() == b.members@.len()
    &&& forall|i: int|
        0 <= i < a.members@.len() ==> same_user(#[trigger] &a.members@[i], &b.members@[i])
}

impl Clone for Team {
    fn clone(&self) -> (r: Team)
        ensures
            same_team(&r, self),
    {
        let mut members: Vec<User> = Vec::new();
        let mut i: usize = 0;
        while i < self.members.len()
            invariant
                i <= self.members.len(),
                members@.len() == i,
                forall|j: int| 0 <= j < i ==> same_user(#[trigger] &members@[j], &self.members@[j]),
            decreases self.members.len() - i,
        {
            members.push(self.members[i].clone());
            i = i + 1;
        }
        Team { id: self.id, name: self.name.clone(), manager: self.manager.clone(), members }
    }
}

impl Entity for Team {
    open spec fn tag() -> Seq<char> {
        "Team"@
    }

    open spec fn id(&self) -> Option<u32> {
        self.id
    }

    /// A team's name defaults to `N/A`. Its node says nothing of people: the
    /// manager is the placeholder user and the member list is empty.
    open spec fn decoded(node: &GraphNode, now: Timestamp, entity: &Team) -> bool {
        &&& entity.name@ == text_or(&node.properties, "name"@, "N/A"@)
        &&& is_default_user(&entity.manager)
        &&& entity.members@.len() == 0
    }

    open spec fn composed(
        nodes: Seq<GraphNode>,
        own: &GraphNode,
        now: Timestamp,
        entity: &Team,
    ) -> bool {
        Self::decoded(own, now, entity)
    }

    fn get_id(&self) -> (r: &Option<u32>) {
        &self.id
    }

    fn get_node_label() -> (r: &'static str) {
        "Team"
    }

    fn from_node(node: &GraphNode, now: Timestamp) -> (r: Team) {
        #[verifier::truncate]
        let id = node.identity as u32;
        let name = get_string(&node.properties, "name", "N/A");
        Team { id: Some(id), name, manager: User::get_default_user(), members: Vec::new() }
    }

    fn try_from_input(input: &FromInput, now: Timestamp) -> (r: Result<Team, DecodeError>) {
        let own = input.nodes_labelled(Team::get_node_label());
        if own.len() == 0 {
            Err(DecodeError::NoNodes)
        } else if own.len() != 1 {
            Err(DecodeError::UnusualNumberOfNodes(own.len()))
        } else {
            Ok(Team::from_node(own[0], now))
        }
    }
}

} // verus!
