//! What a request must carry to describe a new user or a new team.

use vstd::prelude::*;
use crate::user::{accepts, same_user, Team, User};

verus! {

/// Why a request describes no user or team.
#[derive(Clone, Copy, Debug, PartialEq, Eq, Structural)]
pub enum RequestError {
    UsernameRequired,
    TeamNameRequired,
    UserIdRequired,
    /// The user id is no number that an identity can be.
    InvalidUserId,
    /// No user is stored under the identity.
    UnknownUserId(u32),
    /// The password could not be hashed.
    PasswordNotHashed,
}

/// The value of a decimal digit.
pub open spec fn digit_of(c: char) -> Option<nat> {
    if 48 <= c as u32 <= 57 {
        Some((c as u32 - 48) as nat)
    } else {
        None
    }
}

/// The number that a run of decimal digits denotes; nothing where one of
/// the characters is no digit. The empty run denotes 0.
pub open spec fn digits_value(text: Seq<char>) -> Option<nat>
    decreases text.len(),
{
    if text.len() == 0 {
        Some(0)
    } else {
        match (digits_value(text.drop_last()), digit_of(text.last())) {
            (Some(v), Some(d)) => Some(v * 10 + d),
            _ => None,
        }
    }
}

/// The digits of a number text: what follows an optional plus sign.
pub open spec fn digits_part(text: Seq<char>) -> Seq<char> {
    if text.len() > 0 && text[0] == '+' {
        text.skip(1)
    } else {
        text
    }
}

/// The identity that a text denotes: one or more decimal digits, with an
/// optional plus sign in front, whose value an identity can hold.
pub open spec fn user_id_of(text: Seq<char>) -> Option<u32> {
    let digits = digits_part(text);
    if digits.len() == 0 {
        None
    } else {
        match digits_value(digits) {
            Some(v) => if v <= u32::MAX {
                Some(v as u32)
            } else {
                None
            },
            None => None,
        }
    }
}

/// The first characters of a run of digits are a run of digits, and denote
/// no more than the whole.
pub proof fn lemma_digits_prefix(text: Seq<char>, k: int)
    requires
        0 <= k <= text.len(),
        digits_value(text) is Some,
    ensures
        digits_value(text.take(k)) is Some,
        digits_value(text.take(k)).unwrap() <= digits_value(text).unwrap(),
    decreases text.len() - k,
{
    if k < text.len() {
        lemma_digits_prefix(text, k + 1);
        assert(text.take(k + 1).drop_last() =~= text.take(k));
    } else {
        assert(text.take(k) =~= text);
    }
}

/// Reads an identity from its decimal text.
pub fn parse_user_id(text: &str) -> (r: Option<u32>)
    ensures
        r == user_id_of(text@),
{
    let n = text.unicode_len();
    let start: usize = if n > 0 && text.get_char(0) == '+' {
        1
    } else {
        0
    };
    let ghost digits = digits_part(text@);
    if start == n {
        return None;
    }
    let mut acc: u64 = 0;
    let mut i: usize = start;
    proof {
        assert(digits.take(0).len() == 0);
    }
    while i < n
        invariant
            start <= i <= n,
            n == text@.len(),
            start <= 1,
            digits == digits_part(text@),
            digits.len() == n - start,
            forall|j: int| 0 <= j < digits.len() ==> digits[j] == text@[j + start],
            digits_value(digits.take(i - start)) == Some(acc as nat),
            acc <= u32::MAX,
        decreases n - i,
    {
        let c = text.get_char(i);
        let code = c as u32;
        proof {
            assert(digits.take(i - start + 1).drop_last() =~= digits.take(i - start));
            assert(digits.take(i - start + 1).last() == c);
        }
        if code < 48 || code > 57 {
            proof {
                if digits_value(digits) is Some {
                    lemma_digits_prefix(digits, i - start + 1);
                }
            }
            return None;
        }
        acc = acc * 10 + (code - 48) as u64;
        if acc > 4294967295 {
            proof {
                if digits_value(digits) is Some {
                    lemma_digits_prefix(digits, i - start + 1);
                }
            }
            return None;
        }
        i = i + 1;
    }
    proof {
        assert(digits.take(n - start) =~= digits);
    }
    Some(acc as u32)
}

/// The user that the headers of a request describe: the user name is
/// required, the display name defaults to it, and a password is stored as
/// its hash.
pub fn user_from_headers(
    username: Option<&str>,
    display_name: Option<&str>,
    password: Option<&str>,
) -> (r: Result<User, RequestError>)
    ensures
        match username {
            None => r == Err::<User, RequestError>(RequestError::UsernameRequired),
            Some(name) => match r {
                Ok(user) => {
                    &&& user.id is None
                    &&& user.username@ == name@
                    &&& user.display_name@ == match display_name {
                        Some(shown) => shown@,
                        None => name@,
                    }
                    &&& !user.is_admin
                    &&& user.points == 0
                    &&& user.scores@.len() == 0
                    &&& match password {
                        Some(p) => accepts(user.pwd_hash, p@),
                        None => user.pwd_hash is None,
                    }
                },
                Err(e) => e == RequestError::PasswordNotHashed && password is Some,
            },
        },
{
    let name = match username {
        None => {
            return Err(RequestError::UsernameRequired);
        },
        Some(name) => name,
    };
    let shown = match display_name {
        Some(shown) => shown,
        None => name,
    };
    let mut user = User::new(None, String::from_str(name), String::from_str(shown), false);
    match password {
        None => Ok(user),
        Some(p) => {
            if user.set_password(String::from_str(p)) {
                Ok(user)
            } else {
                Err(RequestError::PasswordNotHashed)
            }
        },
    }
}

/// The name of the team and the identity of its manager that the headers of
/// a request give. The team name is looked at first.
pub fn team_from_headers(teamname: Option<&str>, userid: Option<&str>) -> (r: Result<
    (String, u32),
    RequestError,
>)
    ensures
        match (teamname, userid) {
            (None, _) => r == Err::<(String, u32), RequestError>(RequestError::TeamNameRequired),
            (Some(_), None) => r == Err::<(String, u32), RequestError>(
                RequestError::UserIdRequired,
            ),
            (Some(name), Some(id)) => match user_id_of(id@) {
                None => r == Err::<(String, u32), RequestError>(RequestError::InvalidUserId),
                Some(n) => r matches Ok(pair) && pair.0@ == name@ && pair.1 == n,
            },
        },
{
    let name = match teamname {
        None => {
            return Err(RequestError::TeamNameRequired);
        },
        Some(name) => name,
    };
    let id = match userid {
        None => {
            return Err(RequestError::UserIdRequired);
        },
        Some(id) => id,
    };
    match parse_user_id(id) {
        None => Err(RequestError::InvalidUserId),
        Some(n) => Ok((String::from_str(name), n)),
    }
}

/// The new team called `name` under the manager that was found for
/// `user_id`.
pub fn team_for_manager(name: String, user_id: u32, manager: Option<User>) -> (r: Result<
    Team,
    RequestError,
>)
    ensures
        match manager {
            None => r == Err::<Team, RequestError>(RequestError::UnknownUserId(user_id)),
            Some(m) => {
                &&& r matches Ok(team)
                &&& team.id is None
                &&& team.name == name
                &&& team.manager == m
                &&& team.members@.len() == 1
                &&& same_user(&team.members@[0], &m)
            },
        },
{
    match manager {
        None => Err(RequestError::UnknownUserId(user_id)),
        Some(m) => Ok(Team::new(None, name, m)),
    }
}

} // verus!
