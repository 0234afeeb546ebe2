//! Connection addresses and keyspace channel names.

use vstd::prelude::*;

verus! {

/// The character of a decimal digit.
pub open spec fn digit_char(d: nat) -> char
    recommends
        d < 10,
{
    ((48 + d) as u8) as char
}

/// The decimal representation of `n`, most significant digit first.
pub open spec fn decimal(n: nat) -> Seq<char>
    decreases n,
{
    if n < 10 {
        seq![digit_char(n)]
    } else {
        decimal(n / 10).push(digit_char(n % 10))
    }
}

fn digit_str(d: u8) -> (r: &'static str)
    requires
        d < 10,
    ensures
        r@ == seq![digit_char(d as nat)],
{
    proof {
        reveal_strlit("0");
        reveal_strlit("1");
        reveal_strlit("2");
        reveal_strlit("3");
        reveal_strlit("4");
        reveal_strlit("5");
        reveal_strlit("6");
        reveal_strlit("7");
        reveal_strlit("8");
        reveal_strlit("9");
    }
    match d {
        0 => "0",
        1 => "1",
        2 => "2",
        3 => "3",
        4 => "4",
        5 => "5",
        6 => "6",
        7 => "7",
        8 => "8",
        _ => "9",
    }
}

/// Appends the decimal representation of `n` to `s`.
pub fn push_decimal(s: &mut String, n: u8)
    ensures
        final(s)@ == old(s)@ + decimal(n as nat),
{
    reveal_with_fuel(decimal, 3);
    if n >= 100 {
        s.append(digit_str(n / 100));
    }
    if n >= 10 {
        s.append(digit_str((n / 10) % 10));
    }
    s.append(digit_str(n % 10));
    proof {
        let d = n as nat;
        if d >= 100 {
            assert(decimal(d / 10) == decimal(d / 100).push(digit_char((d / 10) % 10)));
            assert(decimal(d / 100) == seq![digit_char(d / 100)]);
        }
        assert(final(s)@ =~= old(s)@ + decimal(d));
    }
}

/// The connection address for `host`, with an optional credential and an
/// optional database index, asking for the RESP3 protocol.
pub open spec fn redis_url(host: Seq<char>, password: Option<Seq<char>>, db: Option<nat>) -> Seq<char> {
    let auth = match password {
        Some(p) => p + "@"@,
        None => Seq::empty(),
    };
    let index = match db {
        Some(d) => "/"@ + decimal(d),
        None => Seq::empty(),
    };
    "redis://"@ + auth + host + index + "/?protocol=resp3"@
}

/// The prefix of every keyspace notification channel of database `db`.
pub open spec fn keyspace_prefix_of(db: nat) -> Seq<char> {
    "__keyspace@"@ + decimal(db) + "__:"@
}

/// The keyspace notification channel of `key` in database `db`.
pub open spec fn keyspace_channel_of(db: nat, key: Seq<char>) -> Seq<char> {
    keyspace_prefix_of(db) + key
}

/// Builds the connection address for `host` (`redis://[password@]host[/db]/?protocol=resp3`).
pub fn get_redis_url(host: String, password: Option<String>, db: Option<u8>) -> (url: String)
    ensures
        url@ == redis_url(
            host@,
            match password {
                Some(p) => Some(p@),
                None => None,
            },
            match db {
                Some(d) => Some(d as nat),
                None => None,
            },
        ),
{
    let mut url = String::from_str("redis://");
    let ghost scheme = url@;
    let ghost mut auth: Seq<char> = Seq::empty();
    if let Some(p) = &password {
        url.append(p.as_str());
        url.append("@");
        proof {
            auth = p@ + "@"@;
        }
    }
    assert(url@ =~= scheme + auth);
    url.append(host.as_str());
    let ghost with_host = url@;
    let ghost mut index: Seq<char> = Seq::empty();
    if let Some(d) = db {
        url.append("/");
        push_decimal(&mut url, d);
        proof {
            index = "/"@ + decimal(d as nat);
        }
    }
    assert(url@ =~= with_host + index);
    url.append("/?protocol=resp3");
    proof {
        reveal_strlit("redis://");
    }
    url
}

/// Builds the prefix `__keyspace@<db>__:` of the keyspace notification channels.
pub fn keyspace_prefix(db: u8) -> (r: String)
    ensures
        r@ == keyspace_prefix_of(db as nat),
{
    let mut r = String::from_str("__keyspace@");
    push_decimal(&mut r, db);
    r.append("__:");
    proof {
        reveal_strlit("__keyspace@");
    }
    r
}

/// Builds the keyspace notification channel of `key`, the pattern that is
/// subscribed to for changes of that key.
pub fn keyspace_channel(db: u8, key: &str) -> (r: String)
    ensures
        r@ == keyspace_channel_of(db as nat, key@),
{
    let mut r = keyspace_prefix(db);
    r.append(key);
    r
}

/// The key named by a keyspace notification channel, if `channel` is one of
/// database `db`.
pub open spec fn channel_key_of(db: nat, channel: Seq<char>) -> Option<Seq<char>> {
    let p = keyspace_prefix_of(db);
    if p.len() <= channel.len() && channel.subrange(0, p.len() as int) == p {
        Some(channel.subrange(p.len() as int, channel.len() as int))
    } else {
        None
    }
}

/// Returns the key named by `channel` when it is a keyspace notification
/// channel of database `db`, and `None` otherwise.
pub fn channel_key(db: u8, channel: &str) -> (r: Option<String>)
    ensures
        r matches Some(k) ==> channel_key_of(db as nat, channel@) == Some(k@),
        r is None ==> channel_key_of(db as nat, channel@) is None,
{
    let prefix = keyspace_prefix(db);
    let p = prefix.as_str();
    let plen = p.unicode_len();
    let clen = channel.unicode_len();
    assert(p@ == keyspace_prefix_of(db as nat));
    if plen > clen {
        return None;
    }
    let mut i: usize = 0;
    while i < plen
        invariant
            p@ == keyspace_prefix_of(db as nat),
            plen == p@.len(),
            clen == channel@.len(),
            plen <= clen,
            i <= plen,
            forall|j: int| 0 <= j < i ==> p@[j] == channel@[j],
        decreases plen - i,
    {
        if p.get_char(i) != channel.get_char(i) {
            assert(channel@.subrange(0, plen as int)[i as int] != p@[i as int]);
            assert(channel@.subrange(0, plen as int) != p@);
            return None;
        }
        i = i + 1;
    }
    assert(channel@.subrange(0, plen as int) =~= p@);
    Some(String::from_str(channel.substring_char(plen, clen)))
}

} // verus!
