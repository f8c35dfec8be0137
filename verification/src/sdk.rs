//! The account SDK's decisions: visitor credentials from a device id, which
//! login failures a local auto-login recovers from, and the game and
//! channel a request names.
use crate::text::{chars_to_string, parse_i32, parse_i32_spec, push_str, str_chars};
use vstd::prelude::*;
use vstd::slice::slice_subrange;

verus! {

/// The game id of the CN release.
pub const CN_GAME_ID: i32 = 50001;

/// The default channel of the CN release.
pub const CN_CHANNEL_ID: i32 = 100;

/// The game id of the international release.
pub const INTERNATIONAL_GAME_ID: i32 = 60001;

/// The default channel of the international release.
pub const INTERNATIONAL_CHANNEL_ID: i32 = 200;

// ---------------------------------------------------------------------------
// Text helpers
// ---------------------------------------------------------------------------

/// A character with the Unicode `White_Space` property.
pub open spec fn white_space(c: char) -> bool {
    ('\u{9}' <= c <= '\u{d}') || c == ' ' || c == '\u{85}' || c == '\u{a0}' || c == '\u{1680}'
        || ('\u{2000}' <= c <= '\u{200a}') || c == '\u{2028}' || c == '\u{2029}' || c
        == '\u{202f}' || c == '\u{205f}' || c == '\u{3000}'
}

fn is_white_space(c: char) -> (b: bool)
    ensures
        b == white_space(c),
{
    ('\u{9}' <= c && c <= '\u{d}') || c == ' ' || c == '\u{85}' || c == '\u{a0}' || c
        == '\u{1680}' || ('\u{2000}' <= c && c <= '\u{200a}') || c == '\u{2028}' || c
        == '\u{2029}' || c == '\u{202f}' || c == '\u{205f}' || c == '\u{3000}'
}

/// `s` without its leading white space.
pub open spec fn trim_start(s: Seq<char>) -> Seq<char>
    decreases s.len(),
{
    if s.len() > 0 && white_space(s[0]) {
        trim_start(s.drop_first())
    } else {
        s
    }
}

/// `s` without its trailing white space.
pub open spec fn trim_end(s: Seq<char>) -> Seq<char>
    decreases s.len(),
{
    if s.len() > 0 && white_space(s.last()) {
        trim_end(s.drop_last())
    } else {
        s
    }
}

/// `s` without leading and trailing white space, as `str::trim` gives it.
pub open spec fn trimmed(s: Seq<char>) -> Seq<char> {
    trim_end(trim_start(s))
}

/// `s` trimmed of white space at both ends.
fn trim_chars(s: &[char]) -> (r: String)
    ensures
        r@ == trimmed(s@),
{
    let n = s.len();
    let mut i: usize = 0;
    assert(s@.subrange(0, n as int) =~= s@);
    while i < n && is_white_space(s[i])
        invariant
            i <= n,
            n == s@.len(),
            trim_start(s@) == trim_start(s@.subrange(i as int, n as int)),
        decreases n - i,
    {
        assert(s@.subrange(i as int, n as int).drop_first() =~= s@.subrange(i + 1, n as int));
        i = i + 1;
    }
    assert(trim_start(s@) == s@.subrange(i as int, n as int));
    let ghost start = s@.subrange(i as int, n as int);
    let mut j: usize = n;
    while j > i && is_white_space(s[j - 1])
        invariant
            i <= j <= n,
            n == s@.len(),
            start == s@.subrange(i as int, n as int),
            trim_end(start) == trim_end(s@.subrange(i as int, j as int)),
        decreases j - i,
    {
        assert(s@.subrange(i as int, j as int).drop_last() =~= s@.subrange(i as int, j - 1));
        j = j - 1;
    }
    chars_to_string(slice_subrange(s, i, j))
}

/// `pat` occurs in `s`.
pub open spec fn contains_text(s: Seq<char>, pat: Seq<char>) -> bool {
    exists|i: int| 0 <= i <= s.len() - pat.len() && #[trigger] s.subrange(i, i + pat.len()) == pat
}

/// Whether `pat` occurs in `s`.
pub fn contains_str(s: &str, pat: &str) -> (b: bool)
    ensures
        b == contains_text(s@, pat@),
{
    let hay = str_chars(s);
    let needle = str_chars(pat);
    let n = hay.len();
    let m = needle.len();
    if m > n {
        proof {
            assert forall|i: int| !(0 <= i <= s@.len() - pat@.len() && #[trigger] s@.subrange(
                i,
                i + pat@.len(),
            ) == pat@) by {}
        }
        return false;
    }
    let mut i: usize = 0;
    while i <= n - m
        invariant
            n == hay@.len(),
            m == needle@.len(),
            m <= n,
            hay@ == s@,
            needle@ == pat@,
            i <= n - m + 1,
            forall|k: int| 0 <= k < i ==> #[trigger] s@.subrange(k, k + pat@.len()) != pat@,
        decreases n - m + 1 - i,
    {
        let mut j: usize = 0;
        while j < m && hay[i + j] == needle[j]
            invariant
                j <= m,
                i + m <= n,
                n == hay@.len(),
                m == needle@.len(),
                forall|k: int| 0 <= k < j ==> hay@[i + k] == needle@[k],
            decreases m - j,
        {
            j = j + 1;
        }
        if j == m {
            assert(s@.subrange(i as int, i + pat@.len()) =~= pat@);
            return true;
        }
        assert(s@.subrange(i as int, i + pat@.len())[j as int] != pat@[j as int]);
        i = i + 1;
    }
    false
}

/// `c` with ASCII upper case letters lowered.
pub open spec fn ascii_lower(c: char) -> int {
    if 'A' <= c <= 'Z' {
        c as int + 32
    } else {
        c as int
    }
}

/// `a` and `b` are equal up to ASCII case.
pub open spec fn eq_ignore_ascii_case(a: Seq<char>, b: Seq<char>) -> bool {
    a.len() == b.len() && forall|i: int| 0 <= i < a.len() ==> ascii_lower(#[trigger] a[i]) == ascii_lower(b[i])
}

fn lower_code(c: char) -> (r: u32)
    ensures
        r == ascii_lower(c),
{
    if 'A' <= c && c <= 'Z' {
        (c as u32) + 32
    } else {
        c as u32
    }
}

/// Whether `a` and `b` are equal up to ASCII case.
fn str_eq_ignore_ascii_case(a: &str, b: &str) -> (r: bool)
    ensures
        r == eq_ignore_ascii_case(a@, b@),
{
    let x = str_chars(a);
    let y = str_chars(b);
    if x.len() != y.len() {
        return false;
    }
    let mut i: usize = 0;
    while i < x.len()
        invariant
            i <= x@.len(),
            x@ == a@,
            y@ == b@,
            x@.len() == y@.len(),
            forall|k: int| 0 <= k < i ==> ascii_lower(#[trigger] x@[k]) == ascii_lower(y@[k]),
        decreases x@.len() - i,
    {
        if lower_code(x[i]) != lower_code(y[i]) {
            return false;
        }
        i = i + 1;
    }
    true
}

// ---------------------------------------------------------------------------
// Visitor login
// ---------------------------------------------------------------------------

/// The name a device logs in under: its trimmed id, or `anonymous` for an
/// id that is empty once trimmed.
pub open spec fn visitor_suffix(device_id: Seq<char>) -> Seq<char> {
    if trimmed(device_id).len() == 0 {
        "anonymous"@
    } else {
        trimmed(device_id)
    }
}

/// The visitor account of a device: the e-mail `visitor_{id}@local.sonetto`
/// and the password `visitor:{id}`.
pub fn visitor_credentials(device_id: &str) -> (r: (String, String))
    ensures
        r.0@ == "visitor_"@ + visitor_suffix(device_id@) + "@local.sonetto"@,
        r.1@ == "visitor:"@ + visitor_suffix(device_id@),
{
    let chars = str_chars(device_id);
    let normalized = trim_chars(chars.as_slice());
    let suffix = if normalized.as_str().is_empty() {
        String::from_str("anonymous")
    } else {
        normalized
    };
    let mut email = String::from_str("visitor_");
    push_str(&mut email, suffix.as_str());
    push_str(&mut email, "@local.sonetto");
    let mut password = String::from_str("visitor:");
    push_str(&mut password, suffix.as_str());
    (email, password)
}

/// What the visitor login reads of its JSON request: `deviceInfo.deviceId`
/// when that is a string.
#[derive(Debug, PartialEq, Eq)]
pub struct VisitorPayload {
    pub device_id: Option<String>,
}

/// The device id of a visitor login: the one sent, or `anonymous`.
pub fn device_id_from_payload(payload: &VisitorPayload) -> (id: &str)
    ensures
        id@ == match payload.device_id {
            Some(d) => d@,
            None => "anonymous"@,
        },
{
    match &payload.device_id {
        Some(d) => d.as_str(),
        None => "anonymous",
    }
}

/// Whether a failed local auto-login is recovered by creating the account
/// anew: when the failure says the user is unknown or the token invalid.
pub fn should_recover_local_auto_login(message: &str) -> (b: bool)
    ensures
        b == (contains_text(message@, "User not found"@) || contains_text(
            message@,
            "Invalid token"@,
        )),
{
    contains_str(message, "User not found") || contains_str(message, "Invalid token")
}

// ---------------------------------------------------------------------------
// Game and channel
// ---------------------------------------------------------------------------

/// The package a login verification names.
#[derive(Debug)]
pub struct AppPackageInfo {
    pub channel_id: String,
    pub game_id: i64,
}

/// The default channel of a game: the international one for the
/// international game, the CN one otherwise.
pub open spec fn default_channel(international: bool) -> i32 {
    if international {
        INTERNATIONAL_CHANNEL_ID
    } else {
        CN_CHANNEL_ID
    }
}

/// The channel a login verification is for: the requested channel when it
/// parses to a positive `i32`, else the default channel of its game.
pub fn requested_channel_id(info: &AppPackageInfo) -> (c: i32)
    ensures
        c == match parse_i32_spec(info.channel_id@) {
            Some(v) => if v > 0 {
                v
            } else {
                default_channel(info.game_id == INTERNATIONAL_GAME_ID)
            },
            None => default_channel(info.game_id == INTERNATIONAL_GAME_ID),
        },
{
    let chars = str_chars(info.channel_id.as_str());
    match parse_i32(chars.as_slice()) {
        Some(v) => {
            if v > 0 {
                return v;
            }
        },
        None => {},
    }
    if info.game_id == INTERNATIONAL_GAME_ID as i64 {
        INTERNATIONAL_CHANNEL_ID
    } else {
        CN_CHANNEL_ID
    }
}

/// The position of the first query parameter whose name equals `key` up to
/// ASCII case, or `-1`.
pub open spec fn first_param(query: Seq<(String, String)>, key: Seq<char>) -> int
    decreases query.len(),
{
    if query.len() == 0 {
        -1
    } else {
        let p = first_param(query.drop_last(), key);
        if p >= 0 {
            p
        } else if eq_ignore_ascii_case(query.last().0@, key) {
            query.len() - 1
        } else {
            -1
        }
    }
}

proof fn lemma_first_param(query: Seq<(String, String)>, key: Seq<char>)
    ensures
        -1 <= first_param(query, key) < query.len(),
        first_param(query, key) >= 0 ==> eq_ignore_ascii_case(query[first_param(query, key)].0@, key),
        forall|j: int|
            0 <= j < query.len() && (first_param(query, key) < 0 || j < first_param(query, key))
                ==> !eq_ignore_ascii_case(#[trigger] query[j].0@, key),
    decreases query.len(),
{
    if query.len() > 0 {
        lemma_first_param(query.drop_last(), key);
        assert forall|j: int| 0 <= j < query.drop_last().len() implies query.drop_last()[j]
            == query[j] by {}
    }
}

/// The value of parameter `key` (its name compared up to ASCII case, the
/// first such parameter in the given order) when it parses to a positive
/// `i32`.
pub open spec fn positive_param(query: Seq<(String, String)>, key: Seq<char>) -> Option<i32> {
    let p = first_param(query, key);
    if p < 0 {
        None
    } else {
        match parse_i32_spec(query[p].1@) {
            Some(v) => if v > 0 {
                Some(v)
            } else {
                None
            },
            None => None,
        }
    }
}

/// Reads parameter `key` of a query, walked in the given order, as a
/// positive `i32`.
pub fn positive_query_value(query: &[(String, String)], key: &str) -> (r: Option<i32>)
    ensures
        r == positive_param(query@, key@),
{
    proof {
        lemma_first_param(query@, key@);
    }
    let mut i: usize = 0;
    while i < query.len() && !str_eq_ignore_ascii_case(query[i].0.as_str(), key)
        invariant
            i <= query@.len(),
            forall|j: int| 0 <= j < i ==> !eq_ignore_ascii_case(#[trigger] query@[j].0@, key@),
        decreases query@.len() - i,
    {
        i = i + 1;
    }
    if i == query.len() {
        assert(first_param(query@, key@) < 0) by {
            lemma_first_param(query@, key@);
            let p = first_param(query@, key@);
            if p >= 0 {
                assert(!eq_ignore_ascii_case(query@[p].0@, key@));
            }
        }
        return None;
    }
    proof {
        lemma_first_param(query@, key@);
        let p = first_param(query@, key@);
        if p >= 0 && p < i {
            assert(!eq_ignore_ascii_case(query@[p].0@, key@));
        }
        if p < 0 || p > i {
            assert(!eq_ignore_ascii_case(query@[i as int].0@, key@));
        }
    }
    let chars = str_chars(query[i].1.as_str());
    match parse_i32(chars.as_slice()) {
        Some(v) => if v > 0 {
            Some(v)
        } else {
            None
        },
        None => None,
    }
}

/// The game an SDK init query names: the international game when it asks
/// for it, the CN game otherwise.
pub open spec fn requested_game(query: Seq<(String, String)>) -> i32 {
    if positive_param(query, "gameId"@) == Some(INTERNATIONAL_GAME_ID) {
        INTERNATIONAL_GAME_ID
    } else {
        CN_GAME_ID
    }
}

/// The game and channel an SDK init query names; the channel defaults to
/// the game's own.
pub fn requested_game_channel(query: &[(String, String)]) -> (r: (i32, i32))
    ensures
        r.0 == requested_game(query@),
        r.1 == match positive_param(query@, "channelId"@) {
            Some(c) => c,
            None => default_channel(requested_game(query@) == INTERNATIONAL_GAME_ID),
        },
{
    let game_id = match positive_query_value(query, "gameId") {
        Some(id) => if id == INTERNATIONAL_GAME_ID {
            INTERNATIONAL_GAME_ID
        } else {
            CN_GAME_ID
        },
        None => CN_GAME_ID,
    };
    let default_channel_id = if game_id == INTERNATIONAL_GAME_ID {
        INTERNATIONAL_CHANNEL_ID
    } else {
        CN_CHANNEL_ID
    };
    let channel_id = match positive_query_value(query, "channelId") {
        Some(c) => c,
        None => default_channel_id,
    };
    (game_id, channel_id)
}

/// A resource diff request.
#[derive(Clone, Copy, Debug, PartialEq, Eq)]
pub struct DiffUpdateResourceReq {
    pub game_id: i64,
}

impl DiffUpdateResourceReq {
    /// Whether the request is for the CN game, the only one with resources
    /// to diff; any other game is a bad request.
    pub fn is_supported(&self) -> (b: bool)
        ensures
            b == (self.game_id == CN_GAME_ID),
    {
        self.game_id == CN_GAME_ID as i64
    }
}

} // verus!
