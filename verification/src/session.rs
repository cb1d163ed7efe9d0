//! Login sessions: a random token, the user it belongs to, and when it was
//! started and last used.

use vstd::prelude::*;
use crate::entity::{labelled, DecodeError, Entity, FromInput};
use crate::graph::GraphNode;
use crate::timestamp::Timestamp;
use crate::user::{is_default_user, same_user, User};
use crate::util::{get_string, get_utc, text_or, utc_at};

verus! {

/// The number of characters in a session token.
pub const PASSWORD_LEN: usize = 30;

/// The characters a session token is drawn from.
pub open spec fn charset() -> Seq<char> {
    "ABCDEFGHIJKLMNOPQRSTUVWXYZabcdefghijklmnopqrstuvwxyz0123456789"@
}

/// The token that a list of positions in the character set spells.
pub open spec fn token_text(indices: Seq<usize>) -> Seq<char>
    decreases indices.len(),
{
    if indices.len() == 0 {
        Seq::empty()
    } else {
        token_text(indices.drop_last()).push(charset()[indices.last() as int])
    }
}

/// A token has one character for each position, each from the character set.
pub proof fn lemma_token_text(indices: Seq<usize>)
    requires
        forall|i: int| 0 <= i < indices.len() ==> (#[trigger] indices[i]) < charset().len(),
    ensures
        token_text(indices).len() == indices.len(),
        forall|i: int|
            0 <= i < indices.len() ==> charset().contains(#[trigger] token_text(indices)[i]),
    decreases indices.len(),
{
    if indices.len() > 0 {
        lemma_token_text(indices.drop_last());
        assert forall|i: int| 0 <= i < indices.len() implies charset().contains(
            #[trigger] token_text(indices)[i],
        ) by {
            if i == indices.len() - 1 {
                assert(token_text(indices)[i] == charset()[indices.last() as int]);
            } else {
                assert(token_text(indices)[i] == token_text(indices.drop_last())[i]);
            }
        }
    }
}

/// Calls `rand::random_range` on `0..bound` with the thread's generator. The
/// contract claims only that the number lies in the range. The generator
/// stops the program if the system cannot seed it.
#[verifier::external_body]
fn random_index(bound: usize) -> (r: usize)
    requires
        bound > 0,
    ensures
        r < bound,
{
    rand::random_range(0..bound)
}

/// Spells the token for the given positions in the character set.
pub fn token_from_indices(indices: &Vec<usize>) -> (r: String)
    requires
        forall|i: int| 0 <= i < indices@.len() ==> (#[trigger] indices@[i]) < 62,
    ensures
        r@ == token_text(indices@),
{
    let alphabet = "ABCDEFGHIJKLMNOPQRSTUVWXYZabcdefghijklmnopqrstuvwxyz0123456789";
    proof {
        reveal_strlit("ABCDEFGHIJKLMNOPQRSTUVWXYZabcdefghijklmnopqrstuvwxyz0123456789");
    }
    let mut out = String::new();
    let mut n: usize = 0;
    while n < indices.len()
        invariant
            n <= indices.len(),
            alphabet@ == charset(),
            alphabet@.len() == 62,
            forall|i: int| 0 <= i < indices@.len() ==> (#[trigger] indices@[i]) < 62,
            out@ == token_text(indices@.take(n as int)),
        decreases indices.len() - n,
    {
        let idx = indices[n];
        let letter = alphabet.substring_char(idx, idx + 1);
        out.append(letter);
        proof {
            assert(indices@.take(n as int + 1).drop_last() =~= indices@.take(n as int));
            assert(indices@.take(n as int + 1).last() == idx);
            assert(letter@ =~= seq![charset()[idx as int]]);
            assert(out@ =~= token_text(indices@.take(n as int + 1)));
        }
        n = n + 1;
    }
    proof {
        assert(indices@.take(n as int) =~= indices@);
    }
    out
}

/// A session of a logged-in user.
#[derive(Debug)]
pub struct Session {
    pub id: Option<u32>,
    /// The token handed to the client; not the identity in the store.
    pub session_id: String,
    pub user: User,
    pub started: Timestamp,
    pub refreshed: Timestamp,
}

impl Session {
    /// A fresh session for `user`, started at `now`, with a new random token.
    pub fn new(id: Option<u32>, user: User, now: Timestamp) -> (r: Session)
        ensures
            r.id == id,
            r.user == user,
            r.started == now,
            r.refreshed == now,
            r.session_id@.len() == PASSWORD_LEN,
            forall|i: int| 0 <= i < PASSWORD_LEN ==> charset().contains(#[trigger] r.session_id@[i]),
    {
        Session { id, session_id: Session::generate_session_id(), user, started: now, refreshed: now }
    }

    /// Draws a token: thirty characters, each picked at random from the
    /// character set.
    pub fn generate_session_id() -> (r: String)
        ensures
            r@.len() == PASSWORD_LEN,
            forall|i: int| 0 <= i < PASSWORD_LEN ==> charset().contains(#[trigger] r@[i]),
    {
        let mut indices: Vec<usize> = Vec::new();
        while indices.len() < PASSWORD_LEN
            invariant
                indices@.len() <= PASSWORD_LEN,
                forall|i: int| 0 <= i < indices@.len() ==> (#[trigger] indices@[i]) < 62,
            decreases PASSWORD_LEN - indices@.len(),
        {
            let idx = random_index(62);
            indices.push(idx);
        }
        proof {
            reveal_strlit("ABCDEFGHIJKLMNOPQRSTUVWXYZabcdefghijklmnopqrstuvwxyz0123456789");
            lemma_token_text(indices@);
        }
        token_from_indices(&indices)
    }

    /// Marks the session as used at `now`.
    pub fn refresh(&mut self, now: Timestamp)
        ensures
            final(self).refreshed == now,
            final(self).id == old(self).id,
            final(self).session_id == old(self).session_id,
            final(self).user == old(self).user,
            final(self).started == old(self).started,
    {
        self.refreshed = now;
    }
}

/// True when two sessions agree in every field.
pub open spec fn same_session(a: &Session, b: &Session) -> bool {
    &&& a.id == b.id
    &&& a.session_id@ == b.session_id@
    &&& same_user(&a.user, &b.user)
    &&& a.started == b.started
    &&& a.refreshed == b.refreshed
}

impl Clone for Session {
    fn clone(&self) -> (r: Session)
        ensures
            same_session(&r, self),
    {
        Session {
            id: self.id,
            session_id: self.session_id.clone(),
            user: self.user.clone(),
            started: self.started,
            refreshed: self.refreshed,
        }
    }
}

/// The fields a session takes from its own node: the token defaults to the
/// empty text, both timestamps to `now`.
pub open spec fn session_fields(node: &GraphNode, now: Timestamp, entity: &Session) -> bool {
    &&& entity.session_id@ == text_or(&node.properties, "session_id"@, ""@)
    &&& entity.started == utc_at(&node.properties, "started"@, now)
    &&& entity.refreshed == utc_at(&node.properties, "refreshed"@, now)
}

impl Entity for Session {
    open spec fn tag() -> Seq<char> {
        "Session"@
    }

    open spec fn id(&self) -> Option<u32> {
        self.id
    }

    /// A session decoded from its node alone belongs to the placeholder user.
    open spec fn decoded(node: &GraphNode, now: Timestamp, entity: &Session) -> bool {
        &&& session_fields(node, now, entity)
        &&& is_default_user(&entity.user)
    }

    /// A session decoded from a row belongs to the user of the last user
    /// node in the row, or to the placeholder where the row holds none.
    open spec fn composed(
        nodes: Seq<GraphNode>,
        own: &GraphNode,
        now: Timestamp,
        entity: &Session,
    ) -> bool {
        let users = labelled(nodes, User::tag());
        &&& session_fields(own, now, entity)
        &&& if users.len() == 0 {
            is_default_user(&entity.user)
        } else {
            &&& entity.user.id == Some(users.last().identity as u32)
            &&& User::decoded(&users.last(), now, &entity.user)
        }
    }

    fn get_id(&self) -> (r: &Option<u32>) {
        &self.id
    }

    fn get_node_label() -> (r: &'static str) {
        "Session"
    }

    fn from_node(node: &GraphNode, now: Timestamp) -> (r: Session) {
        #[verifier::truncate]
        let id = node.identity as u32;
        let session_id = get_string(&node.properties, "session_id", "");
        let started = get_utc(&node.properties, "started", now);
        let refreshed = get_utc(&node.properties, "refreshed", now);
        Session { id: Some(id), session_id, user: User::get_default_user(), started, refreshed }
    }

    fn try_from_input(input: &FromInput, now: Timestamp) -> (r: Result<Session, DecodeError>) {
        let own = input.nodes_labelled(Session::get_node_label());
        if own.len() == 0 {
            return Err(DecodeError::NoNodes);
        }
        if own.len() != 1 {
            return Err(DecodeError::UnusualNumberOfNodes(own.len()));
        }
        let mut session = Session::from_node(own[0], now);
        let users = input.nodes_labelled(User::get_node_label());
        if users.len() > 0 {
            let user = User::from_node(users[users.len() - 1], now);
            session.user = user;
        }
        Ok(session)
    }
}

/// The credentials of a login attempt.
#[derive(Clone, Debug)]
pub struct LoginRequest {
    pub username: String,
    pub password: Option<String>,
}

} // verus!
