//! A store that keeps users, tasks, sessions and teams in memory, for
//! running the tracker without a graph store.

use vstd::prelude::*;
use crate::session::{charset, same_session, LoginRequest, Session, PASSWORD_LEN};
use crate::task::{Score, Task};
use crate::timestamp::Timestamp;
use crate::user::{
    accepts,
    bcrypt_hash,
    has_member,
    opt_text,
    password_verdict,
    same_user,
    Team,
    User,
};

verus! {

/// Why the in-memory store refused an operation.
#[derive(Clone, Copy, Debug, PartialEq, Eq, Structural)]
pub enum LegacyError {
    UserDoesNotExist,
    TaskDoesNotExist,
    TaskNotEnabled,
    UsernameNotAvailable,
    PasswordMismatch,
    SessionUnknown,
    NotAnAdmin,
    TeamDoesNotExist,
    AlreadyMember,
    NotAuthorized,
    /// The points or the identities would no longer fit.
    Overflow,
    /// The password could not be hashed.
    PasswordNotHashed,
    /// The stored password hash cannot be read.
    BrokenPasswordHash,
}

impl LegacyError {
    /// What the refusal says of itself.
    pub fn message(&self) -> (r: &'static str)
        ensures
            *self == LegacyError::UserDoesNotExist ==> r@ == "User does not exist"@,
            *self == LegacyError::TaskDoesNotExist ==> r@ == "Task does not exist"@,
            *self == LegacyError::TaskNotEnabled ==> r@ == "Task is not enabled"@,
            *self == LegacyError::UsernameNotAvailable ==> r@ == "Username is not available"@,
            *self == LegacyError::PasswordMismatch ==> r@ == "Password mismatch"@,
            *self == LegacyError::SessionUnknown ==> r@ == "Session unknown"@,
            *self == LegacyError::NotAnAdmin ==> r@ == "You are not an admin"@,
            *self == LegacyError::TeamDoesNotExist ==> r@ == "Team does not exist"@,
            *self == LegacyError::AlreadyMember ==> r@ == "User is already member of the team"@,
            *self == LegacyError::NotAuthorized ==> r@
                == "User is not authorized to add users to the team"@,
            *self == LegacyError::Overflow ==> r@ == "Number out of range"@,
            *self == LegacyError::PasswordNotHashed ==> r@ == "Password could not be hashed"@,
            *self == LegacyError::BrokenPasswordHash ==> r@ == "Stored password cannot be checked"@,
    {
        match self {
            LegacyError::UserDoesNotExist => "User does not exist",
            LegacyError::TaskDoesNotExist => "Task does not exist",
            LegacyError::TaskNotEnabled => "Task is not enabled",
            LegacyError::UsernameNotAvailable => "Username is not available",
            LegacyError::PasswordMismatch => "Password mismatch",
            LegacyError::SessionUnknown => "Session unknown",
            LegacyError::NotAnAdmin => "You are not an admin",
            LegacyError::TeamDoesNotExist => "Team does not exist",
            LegacyError::AlreadyMember => "User is already member of the team",
            LegacyError::NotAuthorized => "User is not authorized to add users to the team",
            LegacyError::Overflow => "Number out of range",
            LegacyError::PasswordNotHashed => "Password could not be hashed",
            LegacyError::BrokenPasswordHash => "Stored password cannot be checked",
        }
    }
}

/// The position of the first `true`.
pub open spec fn first_true(flags: Seq<bool>) -> Option<int>
    decreases flags.len(),
{
    if flags.len() == 0 {
        None
    } else {
        match first_true(flags.drop_last()) {
            Some(i) => Some(i),
            None => if flags.last() {
                Some(flags.len() - 1)
            } else {
                None
            },
        }
    }
}

/// What `first_true` finds is the first position that holds `true`.
pub proof fn lemma_first_true(flags: Seq<bool>)
    ensures
        match first_true(flags) {
            Some(i) => 0 <= i < flags.len() && flags[i] && forall|j: int|
                0 <= j < i ==> !#[trigger] flags[j],
            None => forall|j: int| 0 <= j < flags.len() ==> !#[trigger] flags[j],
        },
    decreases flags.len(),
{
    if flags.len() > 0 {
        lemma_first_true(flags.drop_last());
        assert forall|j: int| 0 <= j < flags.len() - 1 implies flags.drop_last()[j] == flags[j] by {}
    }
}

/// A `true` found among the first `n` flags is the first of all.
pub proof fn lemma_first_true_prefix(flags: Seq<bool>, n: int)
    requires
        0 <= n <= flags.len(),
        first_true(flags.take(n)) is Some,
    ensures
        first_true(flags) == first_true(flags.take(n)),
    decreases flags.len() - n,
{
    if n < flags.len() {
        assert(flags.take(n + 1).drop_last() =~= flags.take(n));
        lemma_first_true_prefix(flags, n + 1);
    } else {
        assert(flags.take(n) =~= flags);
    }
}

/// For each user, whether it carries the identity `id`.
pub open spec fn user_flags(users: Seq<User>, id: u32) -> Seq<bool> {
    users.map_values(|u: User| u.id == Some(id))
}

/// For each user, whether it has the user name `name`.
pub open spec fn name_flags(users: Seq<User>, name: Seq<char>) -> Seq<bool> {
    users.map_values(|u: User| u.username@ == name)
}

/// For each task, whether it carries the identity `id`.
pub open spec fn task_flags(tasks: Seq<Task>, id: u32) -> Seq<bool> {
    tasks.map_values(|t: Task| t.id == Some(id))
}

/// For each session, whether it has the token `token`.
pub open spec fn session_flags(sessions: Seq<Session>, token: Seq<char>) -> Seq<bool> {
    sessions.map_values(|s: Session| s.session_id@ == token)
}

/// For each team, whether it has the name `name`.
pub open spec fn team_flags(teams: Seq<Team>, name: Seq<char>) -> Seq<bool> {
    teams.map_values(|t: Team| t.name@ == name)
}

/// The position of the first user with the identity `id`.
pub fn user_position(users: &Vec<User>, id: u32) -> (r: Option<usize>)
    ensures
        match r {
            Some(i) => first_true(user_flags(users@, id)) == Some(i as int) && i < users@.len(),
            None => first_true(user_flags(users@, id)) is None,
        },
{
    let ghost flags = user_flags(users@, id);
    let mut i: usize = 0;
    while i < users.len()
        invariant
            i <= users.len(),
            flags == user_flags(users@, id),
            first_true(flags.take(i as int)) is None,
        decreases users.len() - i,
    {
        proof {
            assert(flags.take(i as int + 1).drop_last() =~= flags.take(i as int));
            assert(flags.take(i as int + 1).last() == flags[i as int]);
        }
        let found = match users[i].id {
            Some(other) => other == id,
            None => false,
        };
        if found {
            proof {
                lemma_first_true_prefix(flags, i as int + 1);
            }
            return Some(i);
        }
        i = i + 1;
    }
    proof {
        assert(flags.take(i as int) =~= flags);
    }
    None
}

/// The position of the first user with the user name `name`.
pub fn name_position(users: &Vec<User>, name: &String) -> (r: Option<usize>)
    ensures
        match r {
            Some(i) => first_true(name_flags(users@, name@)) == Some(i as int) && i < users@.len(),
            None => first_true(name_flags(users@, name@)) is None,
        },
{
    let ghost flags = name_flags(users@, name@);
    let mut i: usize = 0;
    while i < users.len()
        invariant
            i <= users.len(),
            flags == name_flags(users@, name@),
            first_true(flags.take(i as int)) is None,
        decreases users.len() - i,
    {
        proof {
            assert(flags.take(i as int + 1).drop_last() =~= flags.take(i as int));
            assert(flags.take(i as int + 1).last() == flags[i as int]);
        }
        if users[i].username == *name {
            proof {
                lemma_first_true_prefix(flags, i as int + 1);
            }
            return Some(i);
        }
        i = i + 1;
    }
    proof {
        assert(flags.take(i as int) =~= flags);
    }
    None
}

/// The position of the first task with the identity `id`.
pub fn task_position(tasks: &Vec<Task>, id: u32) -> (r: Option<usize>)
    ensures
        match r {
            Some(i) => first_true(task_flags(tasks@, id)) == Some(i as int) && i < tasks@.len(),
            None => first_true(task_flags(tasks@, id)) is None,
        },
{
    let ghost flags = task_flags(tasks@, id);
    let mut i: usize = 0;
    while i < tasks.len()
        invariant
            i <= tasks.len(),
            flags == task_flags(tasks@, id),
            first_true(flags.take(i as int)) is None,
        decreases tasks.len() - i,
    {
        proof {
            assert(flags.take(i as int + 1).drop_last() =~= flags.take(i as int));
            assert(flags.take(i as int + 1).last() == flags[i as int]);
        }
        let found = match tasks[i].id {
            Some(other) => other == id,
            None => false,
        };
        if found {
            proof {
                lemma_first_true_prefix(flags, i as int + 1);
            }
            return Some(i);
        }
        i = i + 1;
    }
    proof {
        assert(flags.take(i as int) =~= flags);
    }
    None
}

/// The position of the first session with the token `token`.
pub fn session_position(sessions: &Vec<Session>, token: &String) -> (r: Option<usize>)
    ensures
        match r {
            Some(i) => first_true(session_flags(sessions@, token@)) == Some(i as int) && i
                < sessions@.len(),
            None => first_true(session_flags(sessions@, token@)) is None,
        },
{
    let ghost flags = session_flags(sessions@, token@);
    let mut i: usize = 0;
    while i < sessions.len()
        invariant
            i <= sessions.len(),
            flags == session_flags(sessions@, token@),
            first_true(flags.take(i as int)) is None,
        decreases sessions.len() - i,
    {
        proof {
            assert(flags.take(i as int + 1).drop_last() =~= flags.take(i as int));
            assert(flags.take(i as int + 1).last() == flags[i as int]);
        }
        if sessions[i].session_id == *token {
            proof {
                lemma_first_true_prefix(flags, i as int + 1);
            }
            return Some(i);
        }
        i = i + 1;
    }
    proof {
        assert(flags.take(i as int) =~= flags);
    }
    None
}

/// The position of the first team with the name `name`.
pub fn team_position(teams: &Vec<Team>, name: &String) -> (r: Option<usize>)
    ensures
        match r {
            Some(i) => first_true(team_flags(teams@, name@)) == Some(i as int) && i < teams@.len(),
            None => first_true(team_flags(teams@, name@)) is None,
        },
{
    let ghost flags = team_flags(teams@, name@);
    let mut i: usize = 0;
    while i < teams.len()
        invariant
            i <= teams.len(),
            flags == team_flags(teams@, name@),
            first_true(flags.take(i as int)) is None,
        decreases teams.len() - i,
    {
        proof {
            assert(flags.take(i as int + 1).drop_last() =~= flags.take(i as int));
            assert(flags.take(i as int + 1).last() == flags[i as int]);
        }
        if teams[i].name == *name {
            proof {
                lemma_first_true_prefix(flags, i as int + 1);
            }
            return Some(i);
        }
        i = i + 1;
    }
    proof {
        assert(flags.take(i as int) =~= flags);
    }
    None
}

/// The largest identity among the users; 0 where none has any.
pub open spec fn max_user_id(users: Seq<User>) -> nat
    decreases users.len(),
{
    if users.len() == 0 {
        0
    } else {
        let rest = max_user_id(users.drop_last());
        let last: nat = match users.last().id {
            Some(id) => id as nat,
            None => 0,
        };
        if last > rest {
            last
        } else {
            rest
        }
    }
}

/// The largest identity among the teams; 0 where none has any.
pub open spec fn max_team_id(teams: Seq<Team>) -> nat
    decreases teams.len(),
{
    if teams.len() == 0 {
        0
    } else {
        let rest = max_team_id(teams.drop_last());
        let last: nat = match teams.last().id {
            Some(id) => id as nat,
            None => 0,
        };
        if last > rest {
            last
        } else {
            rest
        }
    }
}

/// Computes the largest identity among the users.
pub fn largest_user_id(users: &Vec<User>) -> (r: u32)
    ensures
        r == max_user_id(users@),
{
    let mut largest: u32 = 0;
    let mut i: usize = 0;
    while i < users.len()
        invariant
            i <= users.len(),
            largest == max_user_id(users@.take(i as int)),
        decreases users.len() - i,
    {
        proof {
            assert(users@.take(i as int + 1).drop_last() =~= users@.take(i as int));
            assert(users@.take(i as int + 1).last() == users@[i as int]);
        }
        match users[i].id {
            Some(id) => {
                if id > largest {
                    largest = id;
                }
            },
            None => {},
        }
        i = i + 1;
    }
    proof {
        assert(users@.take(i as int) =~= users@);
    }
    largest
}

/// Computes the largest identity among the teams.
pub fn largest_team_id(teams: &Vec<Team>) -> (r: u32)
    ensures
        r == max_team_id(teams@),
{
    let mut largest: u32 = 0;
    let mut i: usize = 0;
    while i < teams.len()
        invariant
            i <= teams.len(),
            largest == max_team_id(teams@.take(i as int)),
        decreases teams.len() - i,
    {
        proof {
            assert(teams@.take(i as int + 1).drop_last() =~= teams@.take(i as int));
            assert(teams@.take(i as int + 1).last() == teams@[i as int]);
        }
        match teams[i].id {
            Some(id) => {
                if id > largest {
                    largest = id;
                }
            },
            None => {},
        }
        i = i + 1;
    }
    proof {
        assert(teams@.take(i as int) =~= teams@);
    }
    largest
}

/// True when `member` may be added to the team by `authority` .
pub open spec fn may_join(team: &Team, member: &User, authority: &User) -> Option<LegacyError> {
    let already = match member.id {
        Some(id) => has_member(team.members@, id),
        None => false,
    };
    if already {
        Some(LegacyError::AlreadyMember)
    } else if team.manager.id != authority.id && !authority.is_admin {
        Some(LegacyError::NotAuthorized)
    } else {
        None
    }
}

/// Adds a user to a team on the authority of the team's manager or of an
/// admin. Nobody is added twice.
pub fn add_member(team: &mut Team, new_user: User, authority: &User) -> (r: Result<(), LegacyError>)
    ensures
        match may_join(old(team), &new_user, authority) {
            Some(e) => r == Err::<(), LegacyError>(e) && *final(team) == *old(team),
            None => {
                &&& r is Ok
                &&& final(team).members@ == old(team).members@.push(new_user)
                &&& final(team).id == old(team).id
                &&& final(team).name == old(team).name
                &&& final(team).manager == old(team).manager
            },
        },
{
    if team.contains(&new_user) {
        return Err(LegacyError::AlreadyMember);
    }
    let same_manager = match (team.manager.id, authority.id) {
        (Some(a), Some(b)) => a == b,
        (None, None) => true,
        _ => false,
    };
    if !same_manager && !authority.is_admin {
        return Err(LegacyError::NotAuthorized);
    }
    team.members.push(new_user);
    Ok(())
}

/// The users, tasks, sessions and teams that the store holds.
#[derive(Debug)]
pub struct LegacyRepository {
    pub users: Vec<User>,
    pub sessions: Vec<Session>,
    pub tasks: Vec<Task>,
    pub teams: Vec<Team>,
}

/// True when `after` is `before` with the user at `i` credited for the task
/// at `k`, scored at `now`, and nothing else changed.
pub open spec fn scored_state(
    before: &LegacyRepository,
    after: &LegacyRepository,
    i: int,
    k: int,
    now: Timestamp,
) -> bool {
    &&& after.users@.len() == before.users@.len()
    &&& forall|j: int|
        0 <= j < before.users@.len() && j != i ==> (#[trigger] after.users@[j]) == before.users@[j]
    &&& after.users@[i].points == before.users@[i].points + before.tasks@[k].points
    &&& after.users@[i].scores@ == before.users@[i].scores@.push(
        Score { task: before.tasks@[k], points: before.tasks@[k].points, scored_at: now },
    )
    &&& opt_text(after.users@[i].pwd_hash) == opt_text(before.users@[i].pwd_hash)
    &&& after.users@[i].id == before.users@[i].id
    &&& after.users@[i].username@ == before.users@[i].username@
    &&& after.users@[i].display_name@ == before.users@[i].display_name@
    &&& after.users@[i].is_admin == before.users@[i].is_admin
    &&& after.tasks == before.tasks
    &&& after.sessions == before.sessions
    &&& after.teams == before.teams
}

/// True when `after` is `before` with one more user, who is `added`.
pub open spec fn user_added(before: &LegacyRepository, after: &LegacyRepository, added: &User) -> bool {
    &&& after.users@.len() == before.users@.len() + 1
    &&& forall|j: int| 0 <= j < before.users@.len() ==> (#[trigger] after.users@[j]) == before.users@[j]
    &&& same_user(&after.users@.last(), added)
    &&& after.tasks == before.tasks
    &&& after.sessions == before.sessions
    &&& after.teams == before.teams
}

/// The score that records `task` as scored at `now`, for the points the task
/// is worth.
pub open spec fn score_of(task: Task, now: Timestamp) -> Score {
    Score { task, points: task.points, scored_at: now }
}

/// The points of all the scores together.
pub open spec fn sum_points(scores: Seq<Score>) -> int
    decreases scores.len(),
{
    if scores.len() == 0 {
        0
    } else {
        sum_points(scores.drop_last()) + scores.last().points
    }
}

/// One more score adds its points to the sum.
pub proof fn lemma_sum_points_push(scores: Seq<Score>, score: Score)
    ensures
        sum_points(scores.push(score)) == sum_points(scores) + score.points,
{
    assert(scores.push(score).drop_last() =~= scores);
}

/// Scores `task` for `user` if the task is enabled and the points fit;
/// otherwise leaves the user as it is.
pub fn score_if_enabled(user: &mut User, task: &Task, now: Timestamp)
    ensures
        final(user).id == old(user).id,
        final(user).username == old(user).username,
        final(user).display_name == old(user).display_name,
        final(user).is_admin == old(user).is_admin,
        final(user).pwd_hash == old(user).pwd_hash,
        if task.enabled && old(user).points + task.points <= u16::MAX {
            &&& final(user).points == old(user).points + task.points
            &&& final(user).scores@ == old(user).scores@.push(score_of(*task, now))
        } else {
            &&& final(user).points == old(user).points
            &&& final(user).scores == old(user).scores
        },
{
    if task.enabled && task.points <= u16::MAX - user.points {
        user.score_task(task.clone(), now);
    }
}

/// Makes a user with a hashed password; nothing where the password cannot
/// be hashed.
pub fn seeded_user(id: u32, username: &str, display_name: &str, password: &str, is_admin: bool) -> (r:
    Option<User>)
    ensures
        match r {
            Some(user) => {
                &&& user.id == Some(id)
                &&& user.username@ == username@
                &&& user.display_name@ == display_name@
                &&& user.is_admin == is_admin
                &&& user.points == 0
                &&& user.scores@.len() == 0
                &&& user.pwd_hash is Some
                &&& accepts(user.pwd_hash, password@)
            },
            None => true,
        },
{
    // Whether a hash can be made is for bcrypt to say, which draws a fresh
    // salt for every call. What becomes of the outcome is said by
    // `seeded_user_with_hash`.
    let hashed = bcrypt_hash(password);
    seeded_user_with_hash(id, username, display_name, hashed, is_admin)
}

/// True of a stored task with the given identity, name, points and enabled
/// flag.
pub open spec fn is_task(task: &Task, id: u32, name: Seq<char>, points: u16, enabled: bool) -> bool {
    task.id == Some(id) && task.name@ == name && task.points == points && task.enabled == enabled
}

/// True of a user with a password and the given fields: `points` are the
/// points the user has, `scores` the number of scores behind them.
pub open spec fn is_seeded(
    user: &User,
    id: u32,
    username: Seq<char>,
    display_name: Seq<char>,
    is_admin: bool,
    points: u16,
    scores: nat,
) -> bool {
    &&& user.id == Some(id)
    &&& user.username@ == username
    &&& user.display_name@ == display_name
    &&& user.is_admin == is_admin
    &&& user.points == points
    &&& user.scores@.len() == scores
    &&& user.pwd_hash is Some
}

/// True of the store as it is first set up: four tasks, four users with
/// the points of the tasks they have scored, no sessions and no teams.
/// The first user has scored watering three times, coffee and the dishes
/// once each; the second watering, the dishes and coffee once each; the
/// third nothing; the fourth coffee five times, all of them at `now`.
/// Handing in hours is disabled and earns nothing, however often it is tried.
pub open spec fn is_initial(repository: &LegacyRepository, now: Timestamp) -> bool {
    let water = score_of(repository.tasks@[0], now);
    let dishes = score_of(repository.tasks@[2], now);
    let coffee = score_of(repository.tasks@[3], now);
    &&& repository.tasks@.len() == 4
    &&& is_task(&repository.tasks@[0], 1, "Blumen gießen"@, 10, true)
    &&& is_task(&repository.tasks@[1], 2, "Stunden abgeben"@, 30, false)
    &&& is_task(&repository.tasks@[2], 3, "Spülmaschine ausräumen"@, 52, true)
    &&& is_task(&repository.tasks@[3], 4, "Kaffee kochen"@, 75, true)
    &&& repository.users@.len() == 4
    &&& is_seeded(&repository.users@[0], 1, "roterkohl"@, "Flori"@, true, 157, 5)
    &&& is_seeded(&repository.users@[1], 2, "brutours.de"@, "Michi"@, false, 137, 3)
    &&& is_seeded(&repository.users@[2], 3, "dliwespf"@, "Franki"@, false, 0, 0)
    &&& is_seeded(&repository.users@[3], 4, "topher"@, "Topher"@, true, 375, 5)
    &&& repository.users@[0].scores@ == seq![water, water, water, coffee, dishes]
    &&& repository.users@[1].scores@ == seq![water, dishes, coffee]
    &&& repository.users@[3].scores@ == seq![coffee, coffee, coffee, coffee, coffee]
    &&& repository.sessions@.len() == 0
    &&& repository.teams@.len() == 0
}

/// In the store as it is first set up the users have the identities 1 to 4
/// in the order they were made and no two share a user name; the points of
/// each user are the points of its scores together, and no score is of a
/// disabled task.
pub proof fn lemma_initial_scores(repository: &LegacyRepository, now: Timestamp)
    requires
        is_initial(repository, now),
    ensures
        forall|i: int| 0 <= i < 4 ==> (#[trigger] repository.users@[i]).id == Some((i + 1) as u32),
        forall|i: int, j: int|
            0 <= i < j < 4 ==> (#[trigger] repository.users@[i]).username@ != (
            #[trigger] repository.users@[j]).username@,
        forall|i: int|
            0 <= i < 4 ==> (#[trigger] repository.users@[i]).points == sum_points(
                repository.users@[i].scores@,
            ),
        forall|i: int, k: int|
            0 <= i < 4 && 0 <= k < repository.users@[i].scores@.len() ==> (
            #[trigger] repository.users@[i].scores@[k]).task.enabled,
{
    reveal_strlit("roterkohl");
    reveal_strlit("brutours.de");
    reveal_strlit("dliwespf");
    reveal_strlit("topher");
    assert("roterkohl"@.len() == 9 && "brutours.de"@.len() == 11 && "dliwespf"@.len() == 8
        && "topher"@.len() == 6);
    let none = Seq::<Score>::empty();
    let water = score_of(repository.tasks@[0], now);
    let dishes = score_of(repository.tasks@[2], now);
    let coffee = score_of(repository.tasks@[3], now);
    let first = none.push(water).push(water).push(water).push(coffee).push(dishes);
    lemma_sum_points_push(none, water);
    lemma_sum_points_push(none.push(water), water);
    lemma_sum_points_push(none.push(water).push(water), water);
    lemma_sum_points_push(none.push(water).push(water).push(water), coffee);
    lemma_sum_points_push(none.push(water).push(water).push(water).push(coffee), dishes);
    assert(repository.users@[0].scores@ =~= first);
    let second = none.push(water).push(dishes).push(coffee);
    lemma_sum_points_push(none.push(water), dishes);
    lemma_sum_points_push(none.push(water).push(dishes), coffee);
    assert(repository.users@[1].scores@ =~= second);
    assert(repository.users@[2].scores@ =~= none);
    let fourth = none.push(coffee).push(coffee).push(coffee).push(coffee).push(coffee);
    lemma_sum_points_push(none, coffee);
    lemma_sum_points_push(none.push(coffee), coffee);
    lemma_sum_points_push(none.push(coffee).push(coffee), coffee);
    lemma_sum_points_push(none.push(coffee).push(coffee).push(coffee), coffee);
    lemma_sum_points_push(none.push(coffee).push(coffee).push(coffee).push(coffee), coffee);
    assert(repository.users@[3].scores@ =~= fourth);
}

impl LegacyRepository {
    /// Sets the store up with its first tasks and users and lets the users
    /// score: a score for a disabled task does not count. Every user can
    /// log in with its password. Nothing where a password cannot be hashed.
    pub fn init_repository(now: Timestamp) -> (r: Option<LegacyRepository>)
        ensures
            match r {
                Some(repository) => {
                    &&& is_initial(&repository, now)
                    &&& accepts(repository.users@[0].pwd_hash, "Flori1234"@)
                    &&& accepts(repository.users@[1].pwd_hash, "Michi1234"@)
                    &&& accepts(repository.users@[2].pwd_hash, "Franki1234"@)
                    &&& accepts(repository.users@[3].pwd_hash, "Topheri1234"@)
                },
                None => true,
            },
    {
        // Whether the hashes can be made is for bcrypt to say. What becomes
        // of them is said by `init_with_hashes`.
        let flori_hash = bcrypt_hash("Flori1234");
        let michi_hash = bcrypt_hash("Michi1234");
        let franki_hash = bcrypt_hash("Franki1234");
        let topheri_hash = bcrypt_hash("Topheri1234");
        LegacyRepository::init_with_hashes(flori_hash, michi_hash, franki_hash, topheri_hash, now)
    }

    /// Sets the store up from what hashing the passwords of its first four
    /// users came to: the four tasks and the four users, who then score; a
    /// score for a disabled task does not count. Nothing where one of the
    /// hashes is missing.
    pub fn init_with_hashes(
        flori_hash: Option<String>,
        michi_hash: Option<String>,
        franki_hash: Option<String>,
        topheri_hash: Option<String>,
        now: Timestamp,
    ) -> (r: Option<LegacyRepository>)
        ensures
            match (flori_hash, michi_hash, franki_hash, topheri_hash) {
                (Some(first), Some(second), Some(third), Some(fourth)) => {
                    &&& r matches Some(repository)
                    &&& is_initial(&repository, now)
                    &&& repository.users@[0].pwd_hash == Some(first)
                    &&& repository.users@[1].pwd_hash == Some(second)
                    &&& repository.users@[2].pwd_hash == Some(third)
                    &&& repository.users@[3].pwd_hash == Some(fourth)
                },
                _ => r is None,
            },
    {
        let water = Task {
            id: Some(1),
            name: String::from_str("Blumen gießen"),
            points: 10,
            enabled: true,
        };
        let hours = Task {
            id: Some(2),
            name: String::from_str("Stunden abgeben"),
            points: 30,
            enabled: false,
        };
        let dishes = Task {
            id: Some(3),
            name: String::from_str("Spülmaschine ausräumen"),
            points: 52,
            enabled: true,
        };
        let coffee = Task {
            id: Some(4),
            name: String::from_str("Kaffee kochen"),
            points: 75,
            enabled: true,
        };
        let seeded_flori = seeded_user_with_hash(1, "roterkohl", "Flori", flori_hash, true);
        let seeded_michi = seeded_user_with_hash(2, "brutours.de", "Michi", michi_hash, false);
        let seeded_franki = seeded_user_with_hash(3, "dliwespf", "Franki", franki_hash, false);
        let seeded_topheri = seeded_user_with_hash(4, "topher", "Topher", topheri_hash, true);
        let mut flori = match seeded_flori {
            Some(user) => user,
            None => {
                return None;
            },
        };
        let mut michi = match seeded_michi {
            Some(user) => user,
            None => {
                return None;
            },
        };
        let franki = match seeded_franki {
            Some(user) => user,
            None => {
                return None;
            },
        };
        let mut topheri = match seeded_topheri {
            Some(user) => user,
            None => {
                return None;
            },
        };
        score_if_enabled(&mut flori, &water, now);
        score_if_enabled(&mut flori, &water, now);
        score_if_enabled(&mut flori, &hours, now);
        score_if_enabled(&mut flori, &water, now);
        score_if_enabled(&mut flori, &coffee, now);
        score_if_enabled(&mut flori, &dishes, now);
        score_if_enabled(&mut michi, &water, now);
        score_if_enabled(&mut michi, &hours, now);
        score_if_enabled(&mut michi, &dishes, now);
        score_if_enabled(&mut michi, &coffee, now);
        score_if_enabled(&mut topheri, &coffee, now);
        score_if_enabled(&mut topheri, &coffee, now);
        score_if_enabled(&mut topheri, &coffee, now);
        score_if_enabled(&mut topheri, &coffee, now);
        score_if_enabled(&mut topheri, &coffee, now);
        proof {
            let for_water = score_of(water, now);
            let for_dishes = score_of(dishes, now);
            let for_coffee = score_of(coffee, now);
            assert(flori.scores@ =~= seq![for_water, for_water, for_water, for_coffee, for_dishes]);
            assert(michi.scores@ =~= seq![for_water, for_dishes, for_coffee]);
            assert(topheri.scores@ =~= seq![
                for_coffee,
                for_coffee,
                for_coffee,
                for_coffee,
                for_coffee,
            ]);
        }
        let mut tasks: Vec<Task> = Vec::new();
        tasks.push(water);
        tasks.push(hours);
        tasks.push(dishes);
        tasks.push(coffee);
        let mut users: Vec<User> = Vec::new();
        users.push(flori);
        users.push(michi);
        users.push(franki);
        users.push(topheri);
        Some(LegacyRepository { users, sessions: Vec::new(), tasks, teams: Vec::new() })
    }

    /// The user with the identity `id`.
    pub fn get_user(&self, id: u32) -> (r: Option<User>)
        ensures
            match first_true(user_flags(self.users@, id)) {
                Some(i) => r matches Some(user) && same_user(&user, &self.users@[i]),
                None => r is None,
            },
    {
        match user_position(&self.users, id) {
            Some(i) => Some(self.users[i].clone()),
            None => None,
        }
    }

    /// The user with the user name `username`.
    pub fn find_user_by_username(&self, username: &String) -> (r: Option<User>)
        ensures
            match first_true(name_flags(self.users@, username@)) {
                Some(i) => r matches Some(user) && same_user(&user, &self.users@[i]),
                None => r is None,
            },
    {
        match name_position(&self.users, username) {
            Some(i) => Some(self.users[i].clone()),
            None => None,
        }
    }

    /// Every user, in the order they were added.
    pub fn get_all_users(&self) -> (r: Vec<User>)
        ensures
            r@.len() == self.users@.len(),
            forall|i: int| 0 <= i < r@.len() ==> same_user(#[trigger] &r@[i], &self.users@[i]),
    {
        let mut out: Vec<User> = Vec::new();
        let mut i: usize = 0;
        while i < self.users.len()
            invariant
                i <= self.users.len(),
                out@.len() == i,
                forall|j: int| 0 <= j < i ==> same_user(#[trigger] &out@[j], &self.users@[j]),
            decreases self.users.len() - i,
        {
            out.push(self.users[i].clone());
            i = i + 1;
        }
        out
    }

    /// The task with the identity `id`.
    pub fn get_task(&self, id: u32) -> (r: Option<Task>)
        ensures
            match first_true(task_flags(self.tasks@, id)) {
                Some(i) => r == Some(self.tasks@[i]),
                None => r is None,
            },
    {
        match task_position(&self.tasks, id) {
            Some(i) => Some(self.tasks[i].clone()),
            None => None,
        }
    }

    /// Every task, in the order they were added.
    pub fn get_all_tasks(&self) -> (r: Vec<Task>)
        ensures
            r@ == self.tasks@,
    {
        let mut out: Vec<Task> = Vec::new();
        let mut i: usize = 0;
        while i < self.tasks.len()
            invariant
                i <= self.tasks.len(),
                out@ == self.tasks@.take(i as int),
            decreases self.tasks.len() - i,
        {
            out.push(self.tasks[i].clone());
            proof {
                assert(out@ =~= self.tasks@.take(i as int + 1));
            }
            i = i + 1;
        }
        proof {
            assert(self.tasks@.take(i as int) =~= self.tasks@);
        }
        out
    }

    /// The session with the token `session_id`.
    pub fn find_session(&self, session_id: &String) -> (r: Option<Session>)
        ensures
            match first_true(session_flags(self.sessions@, session_id@)) {
                Some(i) => r matches Some(session) && same_session(&session, &self.sessions@[i]),
                None => r is None,
            },
    {
        match session_position(&self.sessions, session_id) {
            Some(i) => Some(self.sessions[i].clone()),
            None => None,
        }
    }

    /// The session with the token `session_id`.
    pub fn get_session(&self, session_id: &String) -> (r: Option<Session>)
        ensures
            match first_true(session_flags(self.sessions@, session_id@)) {
                Some(i) => r matches Some(session) && same_session(&session, &self.sessions@[i]),
                None => r is None,
            },
    {
        self.find_session(session_id)
    }

    /// Credits a user with the points of an enabled task and records the
    /// score; answers the user's new points.
    pub fn score(&mut self, user_id: u32, task_id: u32, now: Timestamp) -> (r: Result<u16, LegacyError>)
        ensures
            match first_true(user_flags(old(self).users@, user_id)) {
                None => r == Err::<u16, LegacyError>(LegacyError::UserDoesNotExist) && *final(self)
                    == *old(self),
                Some(i) => match first_true(task_flags(old(self).tasks@, task_id)) {
                    None => r == Err::<u16, LegacyError>(LegacyError::TaskDoesNotExist) && *final(self) == *old(self),
                    Some(k) => if !old(self).tasks@[k].enabled {
                        r == Err::<u16, LegacyError>(LegacyError::TaskNotEnabled) && *final(self)
                            == *old(self)
                    } else if old(self).users@[i].points + old(self).tasks@[k].points > u16::MAX {
                        r == Err::<u16, LegacyError>(LegacyError::Overflow) && *final(self) == *old(self)
                    } else {
                        &&& r == Ok::<u16, LegacyError>(
                            (old(self).users@[i].points + old(self).tasks@[k].points) as u16,
                        )
                        &&& scored_state(old(self), final(self), i, k, now)
                    },
                },
            },
    {
        let i = match user_position(&self.users, user_id) {
            Some(i) => i,
            None => {
                return Err(LegacyError::UserDoesNotExist);
            },
        };
        let k = match task_position(&self.tasks, task_id) {
            Some(k) => k,
            None => {
                return Err(LegacyError::TaskDoesNotExist);
            },
        };
        let task = self.tasks[k].clone();
        if !task.enabled {
            return Err(LegacyError::TaskNotEnabled);
        }
        if task.points > u16::MAX - self.users[i].points {
            return Err(LegacyError::Overflow);
        }
        let mut user = self.users[i].clone();
        user.score_task(task, now);
        let points = user.points;
        self.users.set(i, user);
        Ok(points)
    }

    /// Adds `user` under the next free identity, unless its user name is
    /// taken.
    pub fn add_user_private(&mut self, user: User) -> (r: Result<User, LegacyError>)
        ensures
            match first_true(name_flags(old(self).users@, user.username@)) {
                Some(_) => r matches Err(LegacyError::UsernameNotAvailable) && *final(self) == *old(self),
                None => if max_user_id(old(self).users@) >= u32::MAX {
                    r matches Err(LegacyError::Overflow) && *final(self) == *old(self)
                } else {
                    &&& r matches Ok(added)
                    &&& added.id == Some((max_user_id(old(self).users@) + 1) as u32)
                    &&& added.username == user.username
                    &&& added.display_name == user.display_name
                    &&& added.is_admin == user.is_admin
                    &&& added.points == user.points
                    &&& added.scores == user.scores
                    &&& added.pwd_hash == user.pwd_hash
                    &&& user_added(old(self), final(self), &added)
                },
            },
    {
        if name_position(&self.users, &user.username).is_some() {
            return Err(LegacyError::UsernameNotAvailable);
        }
        let largest = largest_user_id(&self.users);
        if largest == u32::MAX {
            return Err(LegacyError::Overflow);
        }
        let mut user = user;
        user.id = Some(largest + 1);
        self.users.push(user.clone());
        Ok(user)
    }

    /// Makes a user with the given names and password and adds it.
    pub fn create_and_add_user(
        &mut self,
        username: String,
        display_name: String,
        password: String,
        is_admin: bool,
    ) -> (r: Result<User, LegacyError>)
        ensures
            match first_true(name_flags(old(self).users@, username@)) {
                Some(_) => r matches Err(LegacyError::UsernameNotAvailable) && *final(self) == *old(self),
                None => match r {
                    Ok(added) => {
                        &&& max_user_id(old(self).users@) < u32::MAX
                        &&& added.id == Some((max_user_id(old(self).users@) + 1) as u32)
                        &&& added.username == username
                        &&& added.display_name == display_name
                        &&& added.is_admin == is_admin
                        &&& added.points == 0
                        &&& added.scores@.len() == 0
                        &&& accepts(added.pwd_hash, password@)
                        &&& user_added(old(self), final(self), &added)
                    },
                    Err(LegacyError::Overflow) => max_user_id(old(self).users@) >= u32::MAX
                        && *final(self) == *old(self),
                    Err(LegacyError::PasswordNotHashed) => *final(self) == *old(self),
                    Err(_) => false,
                },
            },
    {
        if name_position(&self.users, &username).is_some() {
            return Err(LegacyError::UsernameNotAvailable);
        }
        let mut user = User::new(None, username, display_name, is_admin);
        if !user.set_password(password) {
            return Err(LegacyError::PasswordNotHashed);
        }
        self.add_user_private(user)
    }

    /// Adds a user on behalf of the user of `session`, who must be an admin;
    /// answers the new user's identity.
    pub fn add_user(&mut self, session: &Session, user: User) -> (r: Result<u32, LegacyError>)
        ensures
            !session.user.is_admin ==> r == Err::<u32, LegacyError>(LegacyError::NotAnAdmin)
                && *final(self) == *old(self),
            session.user.is_admin ==> (match first_true(
                name_flags(old(self).users@, user.username@),
            ) {
                Some(_) => r == Err::<u32, LegacyError>(LegacyError::UsernameNotAvailable) && *final(self) == *old(self),
                None => if max_user_id(old(self).users@) >= u32::MAX {
                    r == Err::<u32, LegacyError>(LegacyError::Overflow) && *final(self) == *old(self)
                } else {
                    &&& r == Ok::<u32, LegacyError>((max_user_id(old(self).users@) + 1) as u32)
                    &&& final(self).users@.len() == old(self).users@.len() + 1
                    &&& final(self).users@.last().id == Some(
                        (max_user_id(old(self).users@) + 1) as u32,
                    )
                    &&& final(self).users@.last().username@ == user.username@
                    &&& final(self).users@.last().display_name@ == user.display_name@
                    &&& final(self).users@.last().is_admin == user.is_admin
                    &&& final(self).users@.last().points == user.points
                    &&& final(self).users@.last().scores@ == user.scores@
                    &&& opt_text(final(self).users@.last().pwd_hash) == opt_text(user.pwd_hash)
                    &&& forall|j: int|
                        0 <= j < old(self).users@.len() ==> (#[trigger] final(self).users@[j])
                            == old(self).users@[j]
                    &&& final(self).tasks == old(self).tasks
                    &&& final(self).sessions == old(self).sessions
                    &&& final(self).teams == old(self).teams
                },
            }),
    {
        if !session.user.is_admin {
            return Err(LegacyError::NotAnAdmin);
        }
        match self.add_user_private(user) {
            Ok(added) => match added.id {
                Some(id) => Ok(id),
                None => Err(LegacyError::Overflow),
            },
            Err(e) => Err(e),
        }
    }

    /// Adds a team under the next free identity and answers that identity;
    /// nothing where the identities are used up.
    pub fn add_team(&mut self, team: Team) -> (r: Option<u32>)
        ensures
            if max_team_id(old(self).teams@) >= u32::MAX {
                r is None && *final(self) == *old(self)
            } else {
                &&& r == Some((max_team_id(old(self).teams@) + 1) as u32)
                &&& final(self).teams@.len() == old(self).teams@.len() + 1
                &&& forall|j: int|
                    0 <= j < old(self).teams@.len() ==> (#[trigger] final(self).teams@[j]) == old(self).teams@[j]
                &&& final(self).teams@.last().id == r
                &&& final(self).teams@.last().name == team.name
                &&& final(self).teams@.last().manager == team.manager
                &&& final(self).teams@.last().members == team.members
                &&& final(self).users == old(self).users
                &&& final(self).tasks == old(self).tasks
                &&& final(self).sessions == old(self).sessions
            },
    {
        let largest = largest_team_id(&self.teams);
        if largest == u32::MAX {
            return None;
        }
        let mut team = team;
        team.id = Some(largest + 1);
        self.teams.push(team);
        Some(largest + 1)
    }

    /// Adds the user with the identity `user_id` to the team called
    /// `team_name`, on the authority of `manager`.
    pub fn add_user_to_team(&mut self, team_name: &String, user_id: u32, manager: &User) -> (r: Result<
        (),
        LegacyError,
    >)
        ensures
            match first_true(team_flags(old(self).teams@, team_name@)) {
                None => r == Err::<(), LegacyError>(LegacyError::TeamDoesNotExist) && *final(self)
                    == *old(self),
                Some(t) => match first_true(user_flags(old(self).users@, user_id)) {
                    None => r == Err::<(), LegacyError>(LegacyError::UserDoesNotExist) && *final(self) == *old(self),
                    Some(u) => {
                        &&& final(self).users == old(self).users
                        &&& final(self).tasks == old(self).tasks
                        &&& final(self).sessions == old(self).sessions
                        &&& final(self).teams@.len() == old(self).teams@.len()
                        &&& forall|j: int|
                            0 <= j < old(self).teams@.len() && j != t ==> (
                            #[trigger] final(self).teams@[j]) == old(self).teams@[j]
                        &&& final(self).teams@[t].id == old(self).teams@[t].id
                        &&& final(self).teams@[t].name == old(self).teams@[t].name
                        &&& final(self).teams@[t].manager == old(self).teams@[t].manager
                        &&& match r {
                            Ok(_) => {
                                &&& final(self).teams@[t].members@.len() == old(self).teams@[t].members@.len() + 1
                                &&& same_user(
                                    &final(self).teams@[t].members@.last(),
                                    &old(self).users@[u],
                                )
                            },
                            Err(e) => {
                                &&& e == LegacyError::AlreadyMember || e
                                    == LegacyError::NotAuthorized
                                &&& final(self).teams@[t].members == old(self).teams@[t].members
                            },
                        }
                    },
                },
            },
    {
        let t = match team_position(&self.teams, team_name) {
            Some(t) => t,
            None => {
                return Err(LegacyError::TeamDoesNotExist);
            },
        };
        let u = match user_position(&self.users, user_id) {
            Some(u) => u,
            None => {
                return Err(LegacyError::UserDoesNotExist);
            },
        };
        let user = self.users[u].clone();
        let ghost before = self.teams@;
        let mut team = self.teams.remove(t);
        let outcome = add_member(&mut team, user, manager);
        self.teams.insert(t, team);
        proof {
            assert forall|j: int| 0 <= j < before.len() && j != t implies (
            #[trigger] self.teams@[j]) == before[j] by {}
        }
        outcome
    }

    /// Opens a session for the user named in the request, if the password
    /// is the user's.
    pub fn login(&mut self, login_request: &LoginRequest, now: Timestamp) -> (r: Result<
        Session,
        LegacyError,
    >)
        ensures
            final(self).users == old(self).users,
            final(self).tasks == old(self).tasks,
            final(self).teams == old(self).teams,
            match first_true(name_flags(old(self).users@, login_request.username@)) {
                None => r matches Err(LegacyError::UserDoesNotExist) && final(self).sessions == old(self).sessions,
                Some(i) => match password_verdict(
                    old(self).users@[i].pwd_hash,
                    login_request.password,
                ) {
                    None => r matches Err(LegacyError::BrokenPasswordHash) && final(self).sessions
                        == old(self).sessions,
                    Some(false) => r matches Err(LegacyError::PasswordMismatch) && final(self).sessions == old(self).sessions,
                    Some(true) => {
                        &&& r matches Ok(session)
                        &&& session.id is None
                        &&& same_user(&session.user, &old(self).users@[i])
                        &&& session.started == now
                        &&& session.refreshed == now
                        &&& session.session_id@.len() == PASSWORD_LEN
                        &&& forall|c: int|
                            0 <= c < PASSWORD_LEN ==> charset().contains(
                                #[trigger] session.session_id@[c],
                            )
                        &&& final(self).sessions@.len() == old(self).sessions@.len() + 1
                        &&& forall|j: int|
                            0 <= j < old(self).sessions@.len() ==> (
                            #[trigger] final(self).sessions@[j]) == old(self).sessions@[j]
                        &&& same_session(&final(self).sessions@.last(), &session)
                    },
                },
            },
    {
        let i = match name_position(&self.users, &login_request.username) {
            Some(i) => i,
            None => {
                return Err(LegacyError::UserDoesNotExist);
            },
        };
        match self.users[i].verify_password(&login_request.password) {
            None => Err(LegacyError::BrokenPasswordHash),
            Some(false) => Err(LegacyError::PasswordMismatch),
            Some(true) => {
                let session = Session::new(None, self.users[i].clone(), now);
                self.sessions.push(session.clone());
                Ok(session)
            },
        }
    }

    /// Closes the session with the token `session_id`.
    pub fn logout(&mut self, session_id: &String) -> (r: Result<(), LegacyError>)
        ensures
            final(self).users == old(self).users,
            final(self).tasks == old(self).tasks,
            final(self).teams == old(self).teams,
            match first_true(session_flags(old(self).sessions@, session_id@)) {
                None => r matches Err(LegacyError::SessionUnknown) && final(self).sessions == old(self).sessions,
                Some(i) => r is Ok && final(self).sessions@ == old(self).sessions@.remove(i),
            },
    {
        match session_position(&self.sessions, session_id) {
            None => Err(LegacyError::SessionUnknown),
            Some(i) => {
                self.sessions.remove(i);
                Ok(())
            },
        }
    }
}

/// Makes a user from what hashing its password came to: the user with that
/// hash, without points or scores; nothing where there is no hash.
pub fn seeded_user_with_hash(
    id: u32,
    username: &str,
    display_name: &str,
    hashed: Option<String>,
    is_admin: bool,
) -> (r: Option<User>)
    ensures
        match hashed {
            Some(hash) => {
                &&& r matches Some(user)
                &&& user.id == Some(id)
                &&& user.username@ == username@
                &&& user.display_name@ == display_name@
                &&& user.is_admin == is_admin
                &&& user.points == 0
                &&& user.scores@.len() == 0
                &&& user.pwd_hash == Some(hash)
            },
            None => r is None,
        },
{
    let mut user = User::new(
        Some(id),
        String::from_str(username),
        String::from_str(display_name),
        is_admin,
    );
    if user.store_password_hash(hashed) {
        Some(user)
    } else {
        None
    }
}

} // verus!
