//! The login exchange of the game connection: the request's account id and
//! token, the user id an account id denotes, and the reply payloads.
use crate::account::{parse_user_id, user_id_of};
use crate::packet::{be_bytes, be_value, bits16, read_u16_at};
use crate::text::{chars_to_string, same_text, str_chars};
use vstd::prelude::*;
use vstd::slice::slice_subrange;
use vstd::string::StringSliceAdditionalSpecFns;
use vstd::utf8::{decode_utf8, valid_utf8};

verus! {

/// A login request: the account id and the session token.
#[derive(Debug)]
pub struct LoginRequest {
    pub account_id: String,
    pub token: String,
}

/// Why a login request could not be read.
#[derive(Clone, Copy, Debug, PartialEq, Eq)]
pub enum LoginError {
    /// Fewer than the two bytes of the account id length.
    TooShort,
    /// Fewer bytes than the account id length announces.
    LengthMismatch,
    /// The account id or the token is not UTF-8.
    InvalidUtf8,
    /// The account id is not a positive decimal user id.
    InvalidAccountId,
}

/// The message of a request that could not be read.
pub open spec fn login_error_text(e: LoginError) -> Seq<char> {
    match e {
        LoginError::TooShort => "LoginRequest too short"@,
        LoginError::LengthMismatch => "LoginRequest length mismatch"@,
        LoginError::InvalidUtf8 => "invalid utf-8 in LoginRequest"@,
        LoginError::InvalidAccountId => "Invalid account_id format"@,
    }
}

impl LoginError {
    /// The error's message; an invalid account id is not echoed.
    pub fn message(&self) -> (m: String)
        ensures
            m@ == login_error_text(*self),
    {
        match self {
            LoginError::TooShort => String::from_str("LoginRequest too short"),
            LoginError::LengthMismatch => String::from_str("LoginRequest length mismatch"),
            LoginError::InvalidUtf8 => String::from_str("invalid utf-8 in LoginRequest"),
            LoginError::InvalidAccountId => String::from_str("Invalid account_id format"),
        }
    }
}

/// Why a readable login request is refused.
#[derive(Clone, Copy, Debug, PartialEq, Eq)]
pub enum LoginRefusal {
    /// The token is not the one stored for the user.
    InvalidToken,
    /// The stored token has expired.
    TokenExpired,
}

/// The reason a refused login is answered with.
pub open spec fn refusal_text(r: LoginRefusal) -> Seq<char> {
    match r {
        LoginRefusal::InvalidToken => "Invalid token"@,
        LoginRefusal::TokenExpired => "Token expired"@,
    }
}

impl LoginRefusal {
    /// The reason sent back to the client.
    pub fn reason(&self) -> (s: &'static str)
        ensures
            s@ == refusal_text(*self),
    {
        match self {
            LoginRefusal::InvalidToken => "Invalid token",
            LoginRefusal::TokenExpired => "Token expired",
        }
    }
}

/// A login is accepted when its token is the stored one and, where the
/// stored token expires, `now_ms` is not past its expiry.
pub open spec fn login_token_verdict(
    stored_token: Seq<char>,
    token: Seq<char>,
    expires_at: Option<i64>,
    now_ms: i64,
) -> Result<(), LoginRefusal> {
    if stored_token != token {
        Err(LoginRefusal::InvalidToken)
    } else if expires_at matches Some(exp) && now_ms > exp {
        Err(LoginRefusal::TokenExpired)
    } else {
        Ok(())
    }
}

/// Checks a login's token against the stored one at time `now_ms`.
pub fn check_login_token(stored_token: &str, token: &str, expires_at: Option<i64>, now_ms: i64) -> (r:
    Result<(), LoginRefusal>)
    ensures
        r == login_token_verdict(stored_token@, token@, expires_at, now_ms),
{
    if !same_text(stored_token, token) {
        return Err(LoginRefusal::InvalidToken);
    }
    match expires_at {
        Some(exp) => if now_ms > exp {
            Err(LoginRefusal::TokenExpired)
        } else {
            Ok(())
        },
        None => Ok(()),
    }
}

/// `std::str::from_utf8`: the text of valid UTF-8 bytes, `None` for any
/// other bytes.
#[verifier::external_body]
fn utf8_text(bytes: &[u8]) -> (r: Option<String>)
    ensures
        match r {
            Some(s) => valid_utf8(bytes@) && s@ == decode_utf8(bytes@),
            None => !valid_utf8(bytes@),
        },
{
    std::str::from_utf8(bytes).ok().map(|s| s.to_string())
}

/// The position of the first `c` in `s`, or `-1`.
pub open spec fn char_position(s: Seq<char>, c: char) -> int
    decreases s.len(),
{
    if s.len() == 0 {
        -1
    } else {
        let p = char_position(s.drop_last(), c);
        if p >= 0 {
            p
        } else if s.last() == c {
            s.len() - 1
        } else {
            -1
        }
    }
}

proof fn lemma_char_position(s: Seq<char>, c: char)
    ensures
        -1 <= char_position(s, c) < s.len(),
        char_position(s, c) >= 0 ==> s[char_position(s, c)] == c,
        forall|j: int| 0 <= j < s.len() && (char_position(s, c) < 0 || j < char_position(s, c))
            ==> s[j] != c,
        s.contains(c) <==> char_position(s, c) >= 0,
    decreases s.len(),
{
    if s.len() > 0 {
        lemma_char_position(s.drop_last(), c);
        assert forall|j: int| 0 <= j < s.drop_last().len() implies s.drop_last()[j] == s[j] by {}
        if s.contains(c) && char_position(s, c) < 0 {
            let j = choose|j: int| 0 <= j < s.len() && s[j] == c;
            assert(s[j] != c);
        }
    }
}

/// The separator an account string embeds its token with: `#` when present,
/// else `$` when present.
pub open spec fn token_separator(account: Seq<char>) -> Option<char> {
    if account.contains('#') {
        Some('#')
    } else if account.contains('$') {
        Some('$')
    } else {
        None
    }
}

/// The account id and token of a login payload: a big-endian `u16` length
/// and the account string, then either a length-prefixed token or, without
/// one, a token embedded after a `#` (or `$`) in the account string. A token
/// longer than the bytes left is dropped. The account id is the account
/// string before its separator.
pub open spec fn login_request_of(data: Seq<u8>) -> Result<(Seq<char>, Seq<char>), LoginError> {
    if data.len() < 2 {
        Err(LoginError::TooShort)
    } else {
        let n = be_value(data.subrange(0, 2)) as int;
        if data.len() < 2 + n {
            Err(LoginError::LengthMismatch)
        } else {
            let account_bytes = data.subrange(2, 2 + n);
            let rest = data.subrange(2 + n, data.len() as int);
            if !valid_utf8(account_bytes) {
                Err(LoginError::InvalidUtf8)
            } else {
                let account = decode_utf8(account_bytes);
                let sep = token_separator(account);
                let token: Result<Seq<char>, LoginError> = if rest.len() >= 2 {
                    let t = be_value(rest.subrange(0, 2)) as int;
                    if rest.len() >= 2 + t {
                        let token_bytes = rest.subrange(2, 2 + t);
                        if valid_utf8(token_bytes) {
                            Ok(decode_utf8(token_bytes))
                        } else {
                            Err(LoginError::InvalidUtf8)
                        }
                    } else {
                        Ok(Seq::empty())
                    }
                } else {
                    match sep {
                        Some(c) => Ok(account.skip(char_position(account, c) + 1)),
                        None => Ok(Seq::empty()),
                    }
                };
                match token {
                    Err(e) => Err(e),
                    Ok(token) => {
                        let account_id = match sep {
                            Some(c) => account.take(char_position(account, c)),
                            None => account,
                        };
                        Ok((account_id, token))
                    },
                }
            }
        }
    }
}

/// The position of the first `c` in `s`, if any.
fn find_char(s: &[char], c: char) -> (r: Option<usize>)
    ensures
        match r {
            Some(i) => i as int == char_position(s@, c),
            None => char_position(s@, c) < 0,
        },
{
    proof {
        lemma_char_position(s@, c);
    }
    let mut i: usize = 0;
    while i < s.len()
        invariant
            i <= s@.len(),
            forall|j: int| 0 <= j < i ==> s@[j] != c,
        decreases s@.len() - i,
    {
        if s[i] == c {
            proof {
                lemma_char_position(s@, c);
            }
            return Some(i);
        }
        i = i + 1;
    }
    None
}

/// The characters of `s` in `start..end`.
fn char_range(s: &[char], start: usize, end: usize) -> (r: String)
    requires
        start <= end <= s@.len(),
    ensures
        r@ == s@.subrange(start as int, end as int),
{
    chars_to_string(slice_subrange(s, start, end))
}

/// Reads the account id and token of a login request.
pub fn parse_login_request(data: &[u8]) -> (r: Result<LoginRequest, LoginError>)
    ensures
        match login_request_of(data@) {
            Ok((account_id, token)) => r matches Ok(req) && req.account_id@ == account_id
                && req.token@ == token,
            Err(e) => r == Err::<LoginRequest, LoginError>(e),
        },
{
    if data.len() < 2 {
        return Err(LoginError::TooShort);
    }
    let account_id_len = read_u16_at(data, 0) as usize;
    if data.len() < 2 + account_id_len {
        return Err(LoginError::LengthMismatch);
    }
    let account_text = match utf8_text(slice_subrange(data, 2, 2 + account_id_len)) {
        Some(s) => s,
        None => return Err(LoginError::InvalidUtf8),
    };
    let account = str_chars(account_text.as_str());
    let remaining = slice_subrange(data, 2 + account_id_len, data.len());
    let hash = find_char(account.as_slice(), '#');
    let dollar = find_char(account.as_slice(), '$');
    proof {
        lemma_char_position(account@, '#');
        lemma_char_position(account@, '$');
    }
    let sep: Option<usize> = match hash {
        Some(i) => Some(i),
        None => dollar,
    };
    let account_len = account.len();
    assert(sep matches Some(i) ==> i < account_len);
    let token = if remaining.len() >= 2 {
        let token_len = read_u16_at(remaining, 0) as usize;
        if remaining.len() >= 2 + token_len {
            match utf8_text(slice_subrange(remaining, 2, 2 + token_len)) {
                Some(t) => t,
                None => return Err(LoginError::InvalidUtf8),
            }
        } else {
            String::new()
        }
    } else {
        match sep {
            Some(i) => char_range(account.as_slice(), i + 1, account_len),
            None => String::new(),
        }
    };
    let account_id = match sep {
        Some(i) => char_range(account.as_slice(), 0, i),
        None => account_text,
    };
    proof {
        assert(account@.subrange(0, account@.len() as int) =~= account@);
    }
    Ok(LoginRequest { account_id, token })
}

/// The user id an account id denotes.
pub fn extract_user_id(account_id: &str) -> (r: Result<i64, LoginError>)
    ensures
        match user_id_of(account_id@) {
            Some(id) => r == Ok::<i64, LoginError>(id),
            None => r == Err::<i64, LoginError>(LoginError::InvalidAccountId),
        },
{
    match parse_user_id(account_id) {
        Some(id) => Ok(id),
        None => Err(LoginError::InvalidAccountId),
    }
}

/// The eight big-endian bytes of `v`.
pub open spec fn i64_bytes(v: i64) -> Seq<u8> {
    be_bytes(
        (if v < 0 {
            v + 18446744073709551616
        } else {
            v as int
        }) as nat,
        8,
    )
}

/// A login reply: the reason as a big-endian `u16` length and its bytes,
/// then the user id as a big-endian `i64`.
pub open spec fn login_payload(reason: Seq<u8>, user_id: i64) -> Seq<u8> {
    be_bytes(reason.len() % 65536, 2) + reason + i64_bytes(user_id)
}

/// Appends the `k` low bytes of `n`, big-endian.
fn push_be_bytes(out: &mut Vec<u8>, n: u64, k: usize)
    requires
        k <= 8,
    ensures
        final(out)@ == old(out)@ + be_bytes(n as nat, k as nat),
    decreases k,
{
    if k == 0 {
        assert(old(out)@ + be_bytes(n as nat, 0) =~= old(out)@);
        return;
    }
    push_be_bytes(out, n / 256, k - 1);
    out.push((n % 256) as u8);
    proof {
        assert(final(out)@ =~= old(out)@ + be_bytes(n as nat, k as nat));
    }
}

/// Appends the bytes of `b`.
fn push_bytes(out: &mut Vec<u8>, b: &[u8])
    ensures
        final(out)@ == old(out)@ + b@,
{
    let ghost start = out@;
    let mut i: usize = 0;
    while i < b.len()
        invariant
            i <= b@.len(),
            out@ == start + b@.subrange(0, i as int),
        decreases b@.len() - i,
    {
        out.push(b[i]);
        i = i + 1;
        assert(out@ =~= start + b@.subrange(0, i as int));
    }
    assert(b@.subrange(0, b@.len() as int) =~= b@);
}

/// Builds a login reply payload; the reason's length is written modulo
/// 65536, as a `u16`.
fn login_reply_payload(reason: &str, user_id: i64) -> (p: Vec<u8>)
    ensures
        p@ == login_payload(reason.spec_bytes(), user_id),
{
    let bytes = reason.as_bytes();
    let mut payload: Vec<u8> = Vec::new();
    push_be_bytes(&mut payload, (bytes.len() % 65536) as u64, 2);
    push_bytes(&mut payload, bytes);
    let bits: u64 = if user_id < 0 {
        (18446744073709551615u64 - ((-(user_id + 1)) as u64))
    } else {
        user_id as u64
    };
    push_be_bytes(&mut payload, bits, 8);
    payload
}

/// The reply to an accepted login: reason `OK` and the user id.
pub fn build_login_reply(user_id: i64) -> (p: Vec<u8>)
    ensures
        p@ == login_payload(seq![0x4Fu8, 0x4Bu8], user_id),
{
    let p = login_reply_payload("OK", user_id);
    proof {
        reveal_strlit("OK");
        assert("OK"@ == seq!['O', 'K']);
        vstd::string::is_ascii_spec_bytes("OK");
        assert("OK".spec_bytes() =~= seq![0x4Fu8, 0x4Bu8]);
    }
    p
}

/// The reply to a refused login: the reason and user id 0.
pub fn build_login_error(reason: &str) -> (p: Vec<u8>)
    ensures
        p@ == login_payload(reason.spec_bytes(), 0),
{
    login_reply_payload(reason, 0)
}

} // verus!
