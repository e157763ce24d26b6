//! Settings of the service read from its environment, and the database address.
use vstd::prelude::*;

use crate::numbers::{parse_u64, u64_of};
use crate::text::{chars_of, eq_ignore_ascii_case, equal_ignoring_ascii_case, str_equals};

verus! {

/// A flag is on when its value is `1` or `true` in any ASCII case.
pub open spec fn flag_on(value: Seq<char>) -> bool {
    value == "1"@ || equal_ignoring_ascii_case(value, "true"@)
}

/// The value of a flag: on or off as written, `default` when unset.
pub fn env_flag(value: Option<&str>, default: bool) -> (r: bool)
    ensures
        r == (match value {
            Some(v) => flag_on(v@),
            None => default,
        }),
{
    match value {
        Some(v) => str_equals(v, "1") || eq_ignore_ascii_case(v, "true"),
        None => default,
    }
}

/// Hours a session lasts when nothing else is set.
pub const DEFAULT_SESSION_HOURS: u64 = 12;

/// The lifetime of a session in seconds: the hours given (12 when unset or not
/// a number) times 3600, at most the largest `u64`.
pub fn session_ttl_seconds(hours: Option<&str>) -> (r: u64)
    ensures
        r == ({
            let h = match hours {
                Some(v) => match u64_of(v@) {
                    Some(n) => n as int,
                    None => 12,
                },
                None => 12,
            };
            if h * 3600 > u64::MAX {
                u64::MAX as int
            } else {
                h * 3600
            }
        }),
{
    let h: u64 = match hours {
        Some(v) => match parse_u64(v) {
            Some(n) => n,
            None => DEFAULT_SESSION_HOURS,
        },
        None => DEFAULT_SESSION_HOURS,
    };
    if h > u64::MAX / 3600 {
        u64::MAX
    } else {
        h * 3600
    }
}

/// The database the service uses when none is given.
pub fn database_url(value: Option<String>) -> (r: String)
    ensures
        r@ == (match value {
            Some(v) => v@,
            None => "sqlite://data/timey.db"@,
        }),
{
    match value {
        Some(v) => v,
        None => String::from_str("sqlite://data/timey.db"),
    }
}

/// The name of the session cookie.
pub fn cookie_name() -> (r: String)
    ensures
        r@ == "timey_session"@,
{
    String::from_str("timey_session")
}

/// `needle` occurs in `hay` at position `i`.
pub open spec fn occurs_at(hay: Seq<char>, needle: Seq<char>, i: int) -> bool {
    0 <= i && i + needle.len() <= hay.len() && hay.subrange(i, i + needle.len()) == needle
}

/// `needle` occurs somewhere in `hay`.
pub open spec fn contains_text(hay: Seq<char>, needle: Seq<char>) -> bool {
    exists|i: int| occurs_at(hay, needle, i)
}

fn matches_at(hay: &Vec<char>, needle: &Vec<char>, i: usize) -> (r: bool)
    requires
        i + needle@.len() <= hay@.len(),
    ensures
        r == occurs_at(hay@, needle@, i as int),
{
    let total = hay.len();
    let mut k: usize = 0;
    while k < needle.len()
        invariant
            total == hay@.len(),
            i + needle@.len() <= hay@.len(),
            k <= needle@.len(),
            forall|j: int| 0 <= j < k ==> hay@[i + j] == needle@[j],
        decreases needle@.len() - k,
    {
        if hay[i + k] != needle[k] {
            assert(hay@.subrange(i as int, i + needle@.len())[k as int] != needle@[k as int]);
            return false;
        }
        k += 1;
    }
    assert(hay@.subrange(i as int, i + needle@.len()) == needle@);
    true
}

/// Whether `needle` occurs in `hay`.
pub fn contains_str(hay: &str, needle: &str) -> (r: bool)
    ensures
        r == contains_text(hay@, needle@),
{
    let h = chars_of(hay);
    let n = chars_of(needle);
    if n.len() > h.len() {
        return false;
    }
    let last = h.len() - n.len();
    let mut i: usize = 0;
    loop
        invariant
            h@ == hay@,
            n@ == needle@,
            last == h@.len() - n@.len(),
            i <= last,
            forall|j: int| 0 <= j < i ==> !occurs_at(hay@, needle@, j),
        decreases last - i,
    {
        if matches_at(&h, &n, i) {
            return true;
        }
        if i == last {
            assert forall|j: int| occurs_at(hay@, needle@, j) implies false by {
                assert(j <= last);
            }
            return false;
        }
        i += 1;
    }
}

/// An address of an in-memory database.
pub open spec fn memory_db(url: Seq<char>) -> bool {
    contains_text(url, ":memory:"@) || contains_text(url, "mode=memory"@)
}

/// Whether the database lives in memory.
pub fn is_memory_db(database_url: &str) -> (r: bool)
    ensures
        r == memory_db(database_url@),
{
    contains_str(database_url, ":memory:") || contains_str(database_url, "mode=memory")
}

/// Connections the pool keeps: one for an in-memory database, which each
/// connection would otherwise see afresh, five otherwise.
pub fn max_connections(database_url: &str) -> (r: u32)
    ensures
        r == (if memory_db(database_url@) {
            1u32
        } else {
            5u32
        }),
{
    if is_memory_db(database_url) {
        1
    } else {
        5
    }
}

/// `s` starts with `prefix`.
pub open spec fn starts_with(s: Seq<char>, prefix: Seq<char>) -> bool {
    prefix.len() <= s.len() && s.subrange(0, prefix.len() as int) == prefix
}

/// The path of the database file an address names: what follows `sqlite://` or
/// `sqlite:`; none for another address or an in-memory database.
pub open spec fn sqlite_path(url: Seq<char>) -> Option<Seq<char>> {
    let path = if starts_with(url, "sqlite://"@) {
        Some(url.subrange(9, url.len() as int))
    } else if starts_with(url, "sqlite:"@) {
        Some(url.subrange(7, url.len() as int))
    } else {
        None
    };
    match path {
        None => None,
        Some(p) => if (p.len() > 0 && p[0] == ':') || contains_text(p, "mode=memory"@) {
            None
        } else {
            Some(p)
        },
    }
}

fn prefix_matches(chars: &Vec<char>, prefix: &str) -> (r: bool)
    ensures
        r == starts_with(chars@, prefix@),
{
    let p = chars_of(prefix);
    if p.len() > chars.len() {
        return false;
    }
    let mut k: usize = 0;
    while k < p.len()
        invariant
            p@ == prefix@,
            p@.len() <= chars@.len(),
            k <= p@.len(),
            forall|j: int| 0 <= j < k ==> chars@[j] == p@[j],
        decreases p@.len() - k,
    {
        if chars[k] != p[k] {
            assert(chars@.subrange(0, p@.len() as int)[k as int] != p@[k as int]);
            return false;
        }
        k += 1;
    }
    assert(chars@.subrange(0, p@.len() as int) == p@);
    true
}

/// The database file whose folder must exist before the service connects.
pub fn sqlite_file_path(database_url: &str) -> (r: Option<String>)
    ensures
        match sqlite_path(database_url@) {
            Some(p) => r matches Some(s) && s@ == p,
            None => r is None,
        },
{
    let chars = chars_of(database_url);
    proof {
        reveal_strlit("sqlite://");
        reveal_strlit("sqlite:");
    }
    let from: usize = if prefix_matches(&chars, "sqlite://") {
        9
    } else if prefix_matches(&chars, "sqlite:") {
        7
    } else {
        return None;
    };
    let mut rest: Vec<char> = Vec::new();
    let mut i: usize = from;
    while i < chars.len()
        invariant
            from <= i <= chars@.len(),
            rest@ == chars@.subrange(from as int, i as int),
        decreases chars@.len() - i,
    {
        rest.push(chars[i]);
        i += 1;
    }
    let path = crate::text::string_from_chars(rest.as_slice());
    if (rest.len() > 0 && rest[0] == ':') || contains_str(path.as_str(), "mode=memory") {
        return None;
    }
    Some(path)
}

} // verus!
