//! The decisions of the application's workflows. Each takes what the store
//! answered and says what happens next; talking to the store is left to the
//! caller.

use vstd::prelude::*;
use crate::client::{bound, delete_text, Operation};
use crate::entity::Entity;
use crate::error::DbActionError;
use crate::graph::Scalar;
use crate::repository::{SessionRepository, WriteRepository};
use crate::session::{charset, LoginRequest, Session, PASSWORD_LEN};
use crate::task::Task;
use crate::timestamp::Timestamp;
use crate::user::{password_verdict, User};

verus! {

/// Why a workflow stopped.
#[derive(Debug)]
pub enum LogicError {
    /// No user is stored under this identity.
    UserNotFound(u32),
    /// No task is stored under this identity.
    TaskNotFound(u32),
    /// The user's points would no longer fit.
    PointsOverflow,
    /// No user has the name given at login.
    UnknownUser,
    /// The password given at login is not the user's.
    WrongPassword,
    /// The stored password hash cannot be read.
    BrokenPasswordHash,
    /// Only an admin may do this.
    NotAnAdmin,
    /// The user name is taken, or could not be looked up.
    UsernameNotAvailable,
    /// The store created a user and gave it no identity.
    NoIdentity,
    /// The store failed.
    Store(DbActionError),
}

/// The user as it is after scoring a task worth `points`: the same but for
/// the points.
pub open spec fn credited(before: &User, points: u16, after: &User) -> bool {
    &&& after.points == before.points + points
    &&& after.id == before.id
    &&& after.username == before.username
    &&& after.display_name == before.display_name
    &&& after.is_admin == before.is_admin
    &&& after.scores == before.scores
    &&& after.pwd_hash == before.pwd_hash
}

/// Scores a task for a user, given what looking both up came to: the user
/// with the task's points added, ready to be stored. The user is looked at
/// first.
pub fn score(
    user_id: u32,
    task_id: u32,
    found_user: Result<Option<User>, DbActionError>,
    found_task: Result<Option<Task>, DbActionError>,
) -> (r: Result<User, LogicError>)
    ensures
        match found_user {
            Err(e) => r matches Err(LogicError::Store(reported)) && reported == e,
            Ok(None) => r matches Err(LogicError::UserNotFound(id)) && id == user_id,
            Ok(Some(user)) => match found_task {
                Err(e) => r matches Err(LogicError::Store(reported)) && reported == e,
                Ok(None) => r matches Err(LogicError::TaskNotFound(id)) && id == task_id,
                Ok(Some(task)) => if user.points + task.points > u16::MAX {
                    r matches Err(LogicError::PointsOverflow)
                } else {
                    r matches Ok(after) && credited(&user, task.points, &after)
                },
            },
        },
{
    let mut user = match found_user {
        Err(e) => {
            return Err(LogicError::Store(e));
        },
        Ok(None) => {
            return Err(LogicError::UserNotFound(user_id));
        },
        Ok(Some(user)) => user,
    };
    let task = match found_task {
        Err(e) => {
            return Err(LogicError::Store(e));
        },
        Ok(None) => {
            return Err(LogicError::TaskNotFound(task_id));
        },
        Ok(Some(task)) => task,
    };
    if task.points > u16::MAX - user.points {
        return Err(LogicError::PointsOverflow);
    }
    user.points = user.points + task.points;
    Ok(user)
}

/// The points to report after a score, given what storing the user and
/// recording the score came to. Only the first decides: a score that could
/// not be recorded does not undo the points.
pub fn scored(stored: Result<User, DbActionError>, recorded: bool) -> (r: Result<u16, DbActionError>)
    ensures
        match stored {
            Ok(user) => r == Ok::<u16, DbActionError>(user.points),
            Err(e) => r == Err::<u16, DbActionError>(e),
        },
{
    match stored {
        Ok(user) => Ok(user.points),
        Err(e) => Err(e),
    }
}

/// Whether the user of `session` may add a user, given what looking up the
/// new user's name came to: only an admin may, and only under a name that
/// is known to be free.
pub fn may_add_user(session: &Session, existing: &Result<Option<User>, DbActionError>) -> (r:
    Result<(), LogicError>)
    ensures
        match r {
            Ok(_) => session.user.is_admin && *existing matches Ok(None),
            Err(LogicError::NotAnAdmin) => !session.user.is_admin,
            Err(LogicError::UsernameNotAvailable) => session.user.is_admin && !(
            *existing matches Ok(None)),
            Err(_) => false,
        },
{
    if !session.user.is_admin {
        return Err(LogicError::NotAnAdmin);
    }
    match existing {
        Ok(None) => Ok(()),
        _ => Err(LogicError::UsernameNotAvailable),
    }
}

/// What a login comes to once the password was checked: `verdict` is what
/// the check of the offered password against the user's hash gave.
pub open spec fn login_outcome(found: Option<User>, verdict: Option<bool>) -> Option<LogicError> {
    match found {
        None => Some(LogicError::UnknownUser),
        Some(_) => match verdict {
            None => Some(LogicError::BrokenPasswordHash),
            Some(false) => Some(LogicError::WrongPassword),
            Some(true) => None,
        },
    }
}

/// Decides a login from the user that was found under the name and the
/// verdict on the password: a new session for the user, or the refusal.
pub fn login_with_verdict(found: Option<User>, verdict: Option<bool>, now: Timestamp) -> (r: Result<
    Session,
    LogicError,
>)
    ensures
        match r {
            Ok(session) => {
                &&& login_outcome(found, verdict) is None
                &&& session.id is None
                &&& Some(session.user) == found
                &&& session.started == now
                &&& session.refreshed == now
                &&& session.session_id@.len() == PASSWORD_LEN
                &&& forall|i: int|
                    0 <= i < PASSWORD_LEN ==> charset().contains(#[trigger] session.session_id@[i])
            },
            Err(e) => login_outcome(found, verdict) == Some(e),
        },
{
    match found {
        None => Err(LogicError::UnknownUser),
        Some(user) => match verdict {
            None => Err(LogicError::BrokenPasswordHash),
            Some(false) => Err(LogicError::WrongPassword),
            Some(true) => Ok(Session::new(None, user, now)),
        },
    }
}

/// Logs a user in, given what looking up the user name came to: checks the
/// password and opens a session, which is still to be stored.
pub fn login(
    login_request: &LoginRequest,
    found: Result<Option<User>, DbActionError>,
    now: Timestamp,
) -> (r: Result<Session, LogicError>)
    ensures
        match found {
            Err(e) => r matches Err(LogicError::Store(reported)) && reported == e,
            Ok(None) => r matches Err(LogicError::UnknownUser),
            Ok(Some(user)) => match password_verdict(user.pwd_hash, login_request.password) {
                None => r matches Err(LogicError::BrokenPasswordHash),
                Some(false) => r matches Err(LogicError::WrongPassword),
                Some(true) => {
                    &&& r matches Ok(session)
                    &&& session.user == user
                    &&& session.id is None
                    &&& session.started == now
                    &&& session.refreshed == now
                    &&& session.session_id@.len() == PASSWORD_LEN
                    &&& forall|i: int|
                        0 <= i < PASSWORD_LEN ==> charset().contains(
                            #[trigger] session.session_id@[i],
                        )
                },
            },
        },
{
    match found {
        Err(e) => Err(LogicError::Store(e)),
        Ok(None) => login_with_verdict(None, None, now),
        Ok(Some(user)) => {
            let verdict = user.verify_password(&login_request.password);
            login_with_verdict(Some(user), verdict, now)
        },
    }
}

/// The identity to report for a user that was added, given what storing it
/// came to.
pub fn added_user_id(added: Result<User, DbActionError>) -> (r: Result<u32, LogicError>)
    ensures
        match added {
            Ok(user) => match user.id {
                Some(id) => r matches Ok(reported) && reported == id,
                None => r matches Err(LogicError::NoIdentity),
            },
            Err(e) => r matches Err(LogicError::Store(reported)) && reported == e,
        },
{
    match added {
        Ok(user) => match user.id {
            Some(id) => Ok(id),
            None => Err(LogicError::NoIdentity),
        },
        Err(e) => Err(LogicError::Store(e)),
    }
}

/// What a logout has to do, given what looking up the session came to:
/// delete the session that was found, or nothing where there is none.
pub fn logout(found: Result<Option<Session>, DbActionError>) -> (r: Result<
    Option<Operation>,
    DbActionError,
>)
    ensures
        match found {
            Err(e) => r == Err::<Option<Operation>, DbActionError>(e),
            Ok(None) => r matches Ok(None),
            Ok(Some(session)) => match session.id {
                None => r matches Err(e) && e.is_precondition(),
                Some(id) => {
                    &&& r matches Ok(Some(op))
                    &&& op.statement@ == delete_text(Session::tag())
                    &&& bound(op.params) == seq![("id"@, Scalar::Integer(id as i64))]
                    &&& op.is_write
                    &&& op.pull_limit == -1
                },
            },
        },
{
    match found {
        Err(e) => Err(e),
        Ok(None) => Ok(None),
        Ok(Some(session)) => {
            let repository = SessionRepository::new();
            match repository.delete(&session) {
                Ok(op) => Ok(Some(op)),
                Err(e) => Err(e),
            }
        },
    }
}

/// What a failed lookup is taken for where the caller only asks whether
/// something is there: nothing.
pub fn found_or_none<E>(found: Result<Option<E>, DbActionError>) -> (r: Option<E>)
    ensures
        r == match found {
            Ok(e) => e,
            Err(_) => None,
        },
{
    match found {
        Ok(e) => e,
        Err(_) => None,
    }
}

} // verus!
