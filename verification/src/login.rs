//! Reading the credentials out of an HTTP Basic `Authorization` header.

use vstd::prelude::*;
use vstd::utf8::{decode_utf8, valid_utf8};
use crate::session::LoginRequest;

verus! {

/// Why a header gave no credentials.
#[derive(Clone, Copy, Debug, PartialEq, Eq, Structural)]
pub enum AuthorizationError {
    /// There is no header.
    Missing,
    /// The header does not begin with `Basic `.
    NotBasic,
    /// Nothing but blanks follows `Basic`.
    Empty,
    /// What follows `Basic` is not base64.
    NotBase64,
    /// The decoded bytes are not UTF-8.
    NotUtf8,
}

/// The bytes that the standard base64 alphabet, with padding, decodes a text
/// to; `None` for a text that is not such base64.
pub uninterp spec fn base64_decoded(text: Seq<char>) -> Option<Seq<u8>>;

/// Calls `decode` of base64's `STANDARD` engine. Nothing is proved of the
/// decoder: the contract only names what it returns for this text.
#[verifier::external_body]
fn base64_decode(text: &str) -> (r: Option<Vec<u8>>)
    ensures
        match r {
            Some(bytes) => base64_decoded(text@) == Some(bytes@),
            None => base64_decoded(text@) is None,
        },
{
    match base64::Engine::decode(&base64::engine::general_purpose::STANDARD, text) {
        Ok(bytes) => Some(bytes),
        Err(_) => None,
    }
}

/// Calls `String::from_utf8`, which accepts exactly the byte sequences that
/// are valid UTF-8 and gives the text they encode.
#[verifier::external_body]
fn text_from_utf8(bytes: Vec<u8>) -> (r: Option<String>)
    ensures
        match r {
            Some(text) => valid_utf8(bytes@) && text@ == decode_utf8(bytes@),
            None => !valid_utf8(bytes@),
        },
{
    match String::from_utf8(bytes) {
        Ok(text) => Some(text),
        Err(_) => None,
    }
}

/// The blanks that are skipped around the encoded credentials: the
/// characters that Unicode counts as white space.
pub open spec fn is_blank(c: char) -> bool {
    let n = c as u32;
    ||| 9 <= n <= 13
    ||| n == 0x20
    ||| n == 0x85
    ||| n == 0xA0
    ||| n == 0x1680
    ||| 0x2000 <= n <= 0x200A
    ||| n == 0x2028
    ||| n == 0x2029
    ||| n == 0x202F
    ||| n == 0x205F
    ||| n == 0x3000
}

/// True when `text` begins with `Basic ` .
pub open spec fn is_basic(text: Seq<char>) -> bool {
    &&& text.len() >= 6
    &&& text[0] == 'B'
    &&& text[1] == 'a'
    &&& text[2] == 's'
    &&& text[3] == 'i'
    &&& text[4] == 'c'
    &&& text[5] == ' '
}

/// True when `from..to` is what is left of `text` from position 5 on once
/// the blanks at both ends are dropped.
pub open spec fn trims_to(text: Seq<char>, from: int, to: int) -> bool {
    &&& 5 <= from <= to <= text.len()
    &&& forall|i: int| 5 <= i < from ==> is_blank(#[trigger] text[i])
    &&& forall|i: int| to <= i < text.len() ==> is_blank(#[trigger] text[i])
    &&& from < to ==> !is_blank(text[from]) && !is_blank(text[to - 1])
}

/// The position of the first colon, if there is one.
pub open spec fn first_colon(text: Seq<char>) -> Option<int>
    decreases text.len(),
{
    if text.len() == 0 {
        None
    } else {
        match first_colon(text.drop_last()) {
            Some(i) => Some(i),
            None => if text.last() == ':' {
                Some(text.len() - 1)
            } else {
                None
            },
        }
    }
}

/// True when `request` holds the credentials written as `name:password`, or
/// as a bare name.
pub open spec fn credentials_of(text: Seq<char>, request: &LoginRequest) -> bool {
    match first_colon(text) {
        Some(i) => {
            &&& request.username@ == text.subrange(0, i)
            &&& request.password matches Some(p) && p@ == text.subrange(i + 1, text.len() as int)
        },
        None => request.username@ == text && request.password is None,
    }
}

fn blank(c: char) -> (r: bool)
    ensures
        r == is_blank(c),
{
    let n = c as u32;
    (9 <= n && n <= 13) || n == 0x20 || n == 0x85 || n == 0xA0 || n == 0x1680 || (0x2000 <= n && n
        <= 0x200A) || n == 0x2028 || n == 0x2029 || n == 0x202F || n == 0x205F || n == 0x3000
}

/// Finds the encoded credentials in a header: what follows `Basic`, without
/// the blanks around it.
pub fn encoded_part(header: &str) -> (r: Result<(usize, usize), AuthorizationError>)
    ensures
        match r {
            Ok((from, to)) => is_basic(header@) && from < to && trims_to(
                header@,
                from as int,
                to as int,
            ),
            Err(AuthorizationError::NotBasic) => !is_basic(header@),
            Err(AuthorizationError::Empty) => is_basic(header@) && forall|i: int|
                5 <= i < header@.len() ==> is_blank(#[trigger] header@[i]),
            Err(_) => false,
        },
{
    let n = header.unicode_len();
    if n < 6 {
        return Err(AuthorizationError::NotBasic);
    }
    if !(header.get_char(0) == 'B' && header.get_char(1) == 'a' && header.get_char(2) == 's'
        && header.get_char(3) == 'i' && header.get_char(4) == 'c' && header.get_char(5) == ' ') {
        return Err(AuthorizationError::NotBasic);
    }
    let mut from: usize = 5;
    while from < n && blank(header.get_char(from))
        invariant
            5 <= from <= n,
            n == header@.len(),
            forall|i: int| 5 <= i < from ==> is_blank(#[trigger] header@[i]),
        decreases n - from,
    {
        from = from + 1;
    }
    if from == n {
        return Err(AuthorizationError::Empty);
    }
    let mut to: usize = n;
    while to > from + 1 && blank(header.get_char(to - 1))
        invariant
            from < to <= n,
            n == header@.len(),
            !is_blank(header@[from as int]),
            forall|i: int| to <= i < n ==> is_blank(#[trigger] header@[i]),
        decreases to,
    {
        to = to - 1;
    }
    Ok((from, to))
}

/// Splits decoded credentials at the first colon into name and password;
/// without a colon the whole is the name and there is no password.
pub fn split_credentials(decoded: &str) -> (r: LoginRequest)
    ensures
        credentials_of(decoded@, &r),
{
    let n = decoded.unicode_len();
    let mut i: usize = 0;
    while i < n
        invariant
            i <= n,
            n == decoded@.len(),
            first_colon(decoded@.take(i as int)) is None,
        decreases n - i,
    {
        proof {
            assert(decoded@.take(i as int + 1).drop_last() =~= decoded@.take(i as int));
            assert(decoded@.take(i as int + 1).last() == decoded@[i as int]);
        }
        if decoded.get_char(i) == ':' {
            proof {
                lemma_first_colon_prefix(decoded@, i as int + 1);
            }
            let username = String::from_str(decoded.substring_char(0, i));
            let password = String::from_str(decoded.substring_char(i + 1, n));
            return LoginRequest { username, password: Some(password) };
        }
        i = i + 1;
    }
    proof {
        assert(decoded@.take(n as int) =~= decoded@);
    }
    LoginRequest { username: String::from_str(decoded), password: None }
}

/// A colon found in the first `n` characters is the first colon of the
/// whole.
pub proof fn lemma_first_colon_prefix(text: Seq<char>, n: int)
    requires
        0 <= n <= text.len(),
        first_colon(text.take(n)) is Some,
    ensures
        first_colon(text) == first_colon(text.take(n)),
    decreases text.len() - n,
{
    if n < text.len() {
        assert(text.take(n + 1).drop_last() =~= text.take(n));
        lemma_first_colon_prefix(text, n + 1);
    } else {
        assert(text.take(n) =~= text);
    }
}

/// What a header comes to once its encoded part was decoded: `bytes` is what
/// the base64 decoder made of the part.
pub fn credentials_from_decoded(bytes: Option<Vec<u8>>) -> (r: Result<LoginRequest, AuthorizationError>)
    ensures
        match bytes {
            None => r == Err::<LoginRequest, AuthorizationError>(AuthorizationError::NotBase64),
            Some(b) => if valid_utf8(b@) {
                r matches Ok(request) && credentials_of(decode_utf8(b@), &request)
            } else {
                r == Err::<LoginRequest, AuthorizationError>(AuthorizationError::NotUtf8)
            },
        },
{
    match bytes {
        None => Err(AuthorizationError::NotBase64),
        Some(b) => match text_from_utf8(b) {
            None => Err(AuthorizationError::NotUtf8),
            Some(text) => Ok(split_credentials(text.as_str())),
        },
    }
}

/// The encoded credentials of a header that begins with `Basic ` and holds
/// more than blanks after it: what follows `Basic`, without the blanks
/// around it.
pub open spec fn encoded_text(text: Seq<char>) -> Seq<char> {
    let p = choose|p: (int, int)| p.0 < p.1 && trims_to(text, p.0, p.1);
    text.subrange(p.0, p.1)
}

/// Only one stretch of a text is what trimming leaves.
pub proof fn lemma_trim_unique(text: Seq<char>, a: int, b: int, c: int, d: int)
    requires
        a < b,
        trims_to(text, a, b),
        c < d,
        trims_to(text, c, d),
    ensures
        a == c,
        b == d,
{
    if a < c {
        assert(is_blank(text[a]));
    }
    if c < a {
        assert(is_blank(text[c]));
    }
    if b < d {
        assert(is_blank(text[d - 1]));
    }
    if d < b {
        assert(is_blank(text[b - 1]));
    }
}

/// What reading a header comes to.
pub open spec fn reads_as(header: Option<&str>, r: Result<LoginRequest, AuthorizationError>) -> bool {
    match header {
        None => r == Err::<LoginRequest, AuthorizationError>(AuthorizationError::Missing),
        Some(h) => if !is_basic(h@) {
            r == Err::<LoginRequest, AuthorizationError>(AuthorizationError::NotBasic)
        } else if forall|i: int| 5 <= i < h@.len() ==> is_blank(#[trigger] h@[i]) {
            r == Err::<LoginRequest, AuthorizationError>(AuthorizationError::Empty)
        } else {
            match base64_decoded(encoded_text(h@)) {
                None => r == Err::<LoginRequest, AuthorizationError>(AuthorizationError::NotBase64),
                Some(b) => if valid_utf8(b) {
                    r matches Ok(request) && credentials_of(decode_utf8(b), &request)
                } else {
                    r == Err::<LoginRequest, AuthorizationError>(AuthorizationError::NotUtf8)
                },
            }
        },
    }
}

impl LoginRequest {
    /// Reads the credentials from the value of an `Authorization` header:
    /// `Basic`, then the base64 of `name:password` in UTF-8.
    pub fn from_authorization(header: Option<&str>) -> (r: Result<LoginRequest, AuthorizationError>)
        ensures
            reads_as(header, r),
    {
        match header {
            None => Err(AuthorizationError::Missing),
            Some(h) => match encoded_part(h) {
                Err(e) => Err(e),
                Ok((from, to)) => {
                    proof {
                        let p = choose|p: (int, int)| p.0 < p.1 && trims_to(h@, p.0, p.1);
                        assert((from as int, to as int).0 < (from as int, to as int).1 && trims_to(
                            h@,
                            (from as int, to as int).0,
                            (from as int, to as int).1,
                        ));
                        lemma_trim_unique(h@, from as int, to as int, p.0, p.1);
                        assert(!is_blank(h@[from as int]));
                    }
                    let part = h.substring_char(from, to);
                    credentials_from_decoded(base64_decode(part))
                },
            },
        }
    }
}

} // verus!
