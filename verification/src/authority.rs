//! The host and the port of a control URL.
//!
//! A control URL is `https://` and an authority: a host name, or an IPv6
//! address in square brackets, and optionally a colon and a port. A path
//! behind the authority and slashes at the end do not count.

use crate::text;
use crate::text::{
    decimal, decimal_value, first_index, is_decimal, last_index, lemma_decimal_round_trip,
    lemma_first_index, lemma_last_index, lemma_trim_slashes, trim_slashes,
};
use vstd::prelude::*;

verus! {

/// The port of a URL that names none.
pub const DEFAULT_PORT: u16 = 443;

/// The only scheme of a control URL.
pub const SCHEME: &'static str = "https://";

// ---------------------------------------------------------------------------
// What a URL says
// ---------------------------------------------------------------------------

/// The port that some text names: decimal digits, at least one, perhaps behind
/// a plus sign, for a number below 65536.
pub open spec fn port_value(s: Seq<char>) -> Option<u16> {
    let digits = if s.len() > 0 && s[0] == '+' {
        s.skip(1)
    } else {
        s
    };
    if digits.len() > 0 && all_decimal(digits) && decimal_value(digits) <= 65535 {
        Some(decimal_value(digits) as u16)
    } else {
        None
    }
}

/// Whether some text is made of decimal digits only.
pub open spec fn all_decimal(s: Seq<char>) -> bool {
    forall|i: int| 0 <= i < s.len() ==> is_decimal(#[trigger] s[i])
}

/// A host with the port that some text names, if it names one.
pub open spec fn with_port(host: Seq<char>, port: Seq<char>) -> Option<(Seq<char>, u16)> {
    match port_value(port) {
        Some(p) => Some((host, p)),
        None => None,
    }
}

/// The host and the port of an authority. Where it holds a closing bracket,
/// the host is everything up to the last one, and a port follows only behind a
/// colon right after it; otherwise the last colon parts the two.
pub open spec fn split_authority(authority: Seq<char>) -> Option<(Seq<char>, u16)> {
    let bracket = last_index(authority, ']');
    let colon = last_index(authority, ':');
    if bracket >= 0 {
        let host = authority.take(bracket + 1);
        let after = authority.skip(bracket + 1);
        if after.len() > 0 && after[0] == ':' {
            with_port(host, after.skip(1))
        } else {
            Some((host, DEFAULT_PORT))
        }
    } else if colon >= 0 {
        with_port(authority.take(colon), authority.skip(colon + 1))
    } else {
        Some((authority, DEFAULT_PORT))
    }
}

/// The authority of a URL: what stands between the scheme and the first slash
/// behind it. `None` where the scheme is another.
pub open spec fn authority_of(url: Seq<char>) -> Option<Seq<char>> {
    let trimmed = trim_slashes(url);
    if SCHEME@.is_prefix_of(trimmed) {
        let rest = trimmed.skip(SCHEME@.len() as int);
        Some(rest.take(first_index(rest, '/')))
    } else {
        None
    }
}

/// The host and the port of a control URL; `None` where it is not one.
pub open spec fn host_port(url: Seq<char>) -> Option<(Seq<char>, u16)> {
    match authority_of(url) {
        Some(authority) => split_authority(authority),
        None => None,
    }
}

// ---------------------------------------------------------------------------
// Reading
// ---------------------------------------------------------------------------

/// Digits behind a number do not make it smaller.
proof fn lemma_decimal_value_grows(s: Seq<char>, i: int)
    requires
        0 <= i <= s.len(),
        all_decimal(s),
    ensures
        decimal_value(s.take(i)) <= decimal_value(s),
    decreases s.len() - i,
{
    if i < s.len() {
        lemma_decimal_value_grows(s, i + 1);
        assert(s.take(i + 1).drop_last() =~= s.take(i));
        assert(is_decimal(s[i]));
    } else {
        assert(s.take(i) =~= s);
    }
}

/// Read a port.
pub fn parse_port(s: &[char]) -> (port: Option<u16>)
    ensures
        port == port_value(s@),
{
    let start: usize = if s.len() > 0 && s[0] == '+' {
        1
    } else {
        0
    };
    let ghost digits = s@.skip(start as int);
    assert(start == 0 ==> digits =~= s@);
    if s.len() == start {
        return None;
    }
    let mut value: u32 = 0;
    let mut i: usize = start;
    assert(digits.take(0) =~= Seq::<char>::empty());
    while i < s.len()
        invariant
            start <= i <= s@.len(),
            digits == s@.skip(start as int),
            digits.len() > 0,
            digits == (if s@.len() > 0 && s@[0] == '+' {
                s@.skip(1)
            } else {
                s@
            }),
            all_decimal(digits.take(i - start)),
            value == decimal_value(digits.take(i - start)),
            value <= 65535,
        decreases s@.len() - i,
    {
        let c: char = s[i];
        let ghost j = i - start;
        assert(digits[j] == c);
        if !('0' <= c && c <= '9') {
            assert(!is_decimal(digits[j]));
            return None;
        }
        value = 10 * value + (c as u32 - 48);
        assert(digits.take(j + 1).drop_last() =~= digits.take(j));
        assert(decimal_value(digits.take(j + 1)) == value);
        if value > 65535 {
            proof {
                if all_decimal(digits) {
                    lemma_decimal_value_grows(digits, j + 1);
                }
            }
            return None;
        }
        i = i + 1;
    }
    assert(digits.take(digits.len() as int) =~= digits);
    Some(value as u16)
}

/// Split an authority into its host and its port.
pub fn parse_authority(authority: &[char]) -> (r: Option<(String, u16)>)
    ensures
        match r {
            Some((host, port)) => split_authority(authority@) == Some((host@, port)),
            None => split_authority(authority@) is None,
        },
{
    let total: usize = authority.len();
    proof {
        lemma_last_index(authority@, ']');
        lemma_last_index(authority@, ':');
    }
    match text::find_last(authority, ']') {
        Some(bracket) => {
            let host: String = text::text_between(authority, 0, bracket + 1);
            assert(host@ =~= authority@.take(bracket + 1));
            let after: &[char] = vstd::slice::slice_subrange(
                authority,
                bracket + 1,
                total,
            );
            assert(after@ =~= authority@.skip(bracket + 1));
            if after.len() > 0 && after[0] == ':' {
                let port: &[char] = vstd::slice::slice_subrange(after, 1, after.len());
                assert(port@ =~= after@.skip(1));
                match parse_port(port) {
                    Some(p) => Some((host, p)),
                    None => None,
                }
            } else {
                Some((host, DEFAULT_PORT))
            }
        },
        None => match text::find_last(authority, ':') {
            Some(colon) => {
                let host: String = text::text_between(authority, 0, colon);
                assert(host@ =~= authority@.take(colon as int));
                let port: &[char] = vstd::slice::slice_subrange(
                    authority,
                    colon + 1,
                    total,
                );
                assert(port@ =~= authority@.skip(colon + 1));
                match parse_port(port) {
                    Some(p) => Some((host, p)),
                    None => None,
                }
            },
            None => {
                let host: String = text::text_between(authority, 0, total);
                assert(host@ =~= authority@);
                Some((host, DEFAULT_PORT))
            },
        },
    }
}

/// Read the host and the port of a control URL.
pub fn parse_url(url: &str) -> (r: Option<(String, u16)>)
    ensures
        match r {
            Some((host, port)) => host_port(url@) == Some((host@, port)),
            None => host_port(url@) is None,
        },
{
    let chars: Vec<char> = text::chars_of(url);
    let scheme: Vec<char> = text::chars_of(SCHEME);
    let n: usize = text::trimmed_len(&chars);
    let trimmed: &[char] = vstd::slice::slice_subrange(&chars, 0, n);
    assert(trimmed@ =~= trim_slashes(url@));
    if !text::matches_at(trimmed, 0, &scheme) {
        assert(!SCHEME@.is_prefix_of(trimmed@));
        return None;
    }
    assert(SCHEME@.is_prefix_of(trimmed@));
    let rest: &[char] = vstd::slice::slice_subrange(trimmed, scheme.len(), n);
    assert(rest@ =~= trimmed@.skip(SCHEME@.len() as int));
    let end: usize = text::find_first(rest, '/');
    proof {
        lemma_first_index(rest@, '/');
    }
    let authority: &[char] = vstd::slice::slice_subrange(rest, 0, end);
    assert(authority@ =~= rest@.take(end as int));
    parse_authority(authority)
}

// ---------------------------------------------------------------------------
// Laws
// ---------------------------------------------------------------------------

/// A slash at the end of a control URL makes no difference.
pub proof fn law_trailing_slash_is_ignored(url: Seq<char>)
    ensures
        host_port(url.push('/')) == host_port(url),
{
    assert(url.push('/').drop_last() =~= url);
}

/// Only `https://` URLs are accepted.
pub proof fn law_other_schemes_are_refused(url: Seq<char>)
    requires
        !SCHEME@.is_prefix_of(url),
    ensures
        host_port(url) is None,
{
    lemma_trim_slashes(url);
}

/// Trimming slashes leaves the front of a text alone where it does not end in
/// one.
proof fn lemma_trim_keeps_front(front: Seq<char>, back: Seq<char>)
    requires
        front.len() > 0,
        front.last() != '/',
    ensures
        trim_slashes(front + back) == front + trim_slashes(back),
    decreases back.len(),
{
    if back.len() > 0 && back.last() == '/' {
        assert((front + back).drop_last() =~= front + back.drop_last());
        lemma_trim_keeps_front(front, back.drop_last());
    } else if back.len() > 0 {
        assert((front + back).last() == back.last());
    } else {
        assert(front + back =~= front);
    }
}

/// The authority of a URL is what was put between the scheme and a path, and
/// the path does not count.
pub proof fn law_authority_is_found(authority: Seq<char>, path: Seq<char>)
    requires
        authority.len() > 0,
        forall|i: int| 0 <= i < authority.len() ==> authority[i] != '/',
        path.len() > 0 ==> path[0] == '/',
    ensures
        authority_of(SCHEME@ + authority + path) == Some(authority),
        host_port(SCHEME@ + authority + path) == split_authority(authority),
{
    let front = SCHEME@ + authority;
    let url = front + path;
    assert(front.last() == authority.last());
    lemma_trim_keeps_front(front, path);
    lemma_trim_slashes(path);
    let tail = trim_slashes(path);
    let trimmed = trim_slashes(url);
    assert(trimmed =~= SCHEME@ + (authority + tail));
    let rest = trimmed.skip(SCHEME@.len() as int);
    assert(rest =~= authority + tail);
    assert(SCHEME@.is_prefix_of(trimmed));
    lemma_first_index(rest, '/');
    assert(first_index(rest, '/') == authority.len()) by {
        let k = first_index(rest, '/');
        if k < authority.len() {
            assert(rest[k] == authority[k]);
        }
        if k > authority.len() {
            assert(rest[authority.len() as int] == tail[0]);
            assert(tail[0] == path[0]);
        }
    }
    assert(rest.take(authority.len() as int) =~= authority);
}

/// The last colon in `host:port`, where the port holds none, is the one
/// between the two; likewise for any other mark.
proof fn lemma_last_index_of_join(front: Seq<char>, mark: char, back: Seq<char>)
    requires
        forall|i: int| 0 <= i < back.len() ==> back[i] != mark,
    ensures
        last_index(front.push(mark) + back, mark) == front.len(),
{
    let s = front.push(mark) + back;
    lemma_last_index(s, mark);
    let k = last_index(s, mark);
    assert(s[front.len() as int] == mark);
    if k > front.len() {
        assert(s[k] == back[k - front.len() - 1]);
    }
}

/// A mark that does not occur is not found.
proof fn lemma_last_index_absent(s: Seq<char>, mark: char)
    requires
        forall|i: int| 0 <= i < s.len() ==> s[i] != mark,
    ensures
        last_index(s, mark) == -1,
{
    lemma_last_index(s, mark);
}

/// The numeral of a port is read as that port.
proof fn lemma_port_round_trip(port: u16)
    ensures
        port_value(decimal(port as nat)) == Some(port),
        forall|i: int|
            0 <= i < decimal(port as nat).len() ==> is_decimal(#[trigger] decimal(port as nat)[i]),
{
    lemma_decimal_round_trip(port as nat);
    assert(is_decimal(decimal(port as nat)[0]));
}

/// A host name that holds no colon, bracket or slash, followed by a colon and
/// a port, is read as that host and that port.
pub proof fn law_host_and_port_round_trip(host: Seq<char>, port: u16, path: Seq<char>)
    requires
        forall|i: int|
            0 <= i < host.len() ==> host[i] != '/' && host[i] != ':' && #[trigger] host[i] != ']',
        path.len() > 0 ==> path[0] == '/',
    ensures
        host_port(SCHEME@ + (host.push(':') + decimal(port as nat)) + path) == Some((host, port)),
{
    let digits = decimal(port as nat);
    let authority = host.push(':') + digits;
    lemma_port_round_trip(port);
    assert forall|i: int| 0 <= i < authority.len() implies authority[i] != '/' && authority[i]
        != ']' by {
        if i > host.len() {
            assert(is_decimal(digits[i - host.len() - 1]));
        }
    }
    assert forall|i: int| 0 <= i < digits.len() implies digits[i] != ':' by {
        assert(is_decimal(digits[i]));
    }
    lemma_last_index_of_join(host, ':', digits);
    lemma_last_index_absent(authority, ']');
    assert(authority.take(host.len() as int) =~= host);
    assert(authority.skip(host.len() as int + 1) =~= digits);
    law_authority_is_found(authority, path);
}

/// A host name that holds no colon, bracket or slash, with no port, is read as
/// that host and the default port.
pub proof fn law_default_port(host: Seq<char>, path: Seq<char>)
    requires
        host.len() > 0,
        forall|i: int|
            0 <= i < host.len() ==> host[i] != '/' && host[i] != ':' && #[trigger] host[i] != ']',
        path.len() > 0 ==> path[0] == '/',
    ensures
        host_port(SCHEME@ + host + path) == Some((host, DEFAULT_PORT)),
{
    lemma_last_index_absent(host, ':');
    lemma_last_index_absent(host, ']');
    law_authority_is_found(host, path);
}

/// An address in square brackets keeps its brackets, and its colons are not
/// taken for the one before the port.
pub proof fn law_bracketed_address_round_trip(address: Seq<char>, port: u16, path: Seq<char>)
    requires
        forall|i: int| 0 <= i < address.len() ==> address[i] != '/',
        path.len() > 0 ==> path[0] == '/',
    ensures
        ({
            let host = (seq!['['] + address).push(']');
            &&& host_port(SCHEME@ + (host.push(':') + decimal(port as nat)) + path) == Some(
                (host, port),
            )
            &&& host_port(SCHEME@ + host + path) == Some((host, DEFAULT_PORT))
        }),
{
    let open = seq!['['] + address;
    let host = open.push(']');
    let digits = decimal(port as nat);
    lemma_port_round_trip(port);
    let back = seq![':'] + digits;
    let authority = host.push(':') + digits;
    assert(authority =~= host + back);
    assert forall|i: int| 0 <= i < back.len() implies back[i] != ']' && back[i] != '/' by {
        if i > 0 {
            assert(is_decimal(digits[i - 1]));
        }
    }
    assert forall|i: int| 0 <= i < host.len() implies host[i] != '/' by {
        if 0 < i < host.len() - 1 {
            assert(host[i] == address[i - 1]);
        }
    }
    lemma_last_index_of_join(open, ']', back);
    assert(authority.take(open.len() as int + 1) =~= host);
    assert(authority.skip(open.len() as int + 1) =~= back);
    assert(back.skip(1) =~= digits);
    law_authority_is_found(authority, path);
    lemma_last_index_of_join(open, ']', Seq::<char>::empty());
    assert(host + Seq::<char>::empty() =~= host);
    assert(host.take(open.len() as int + 1) =~= host);
    assert(host.skip(open.len() as int + 1) =~= Seq::<char>::empty());
    law_authority_is_found(host, path);
}

/// A port is read from decimal digits, at least one, with or without a plus sign
/// before them, where they denote a number below 65536; nothing else is one.
pub proof fn law_port_reading(s: Seq<char>)
    ensures
        s.len() == 0 ==> port_value(s) is None,
        s.len() > 0 && all_decimal(s) ==> port_value(s) == if decimal_value(s) < 65536 {
            Some(decimal_value(s) as u16)
        } else {
            None
        },
        s.len() > 0 && all_decimal(s) ==> port_value(seq!['+'] + s) == port_value(s),
        port_value(s) is Some ==> s.last() != '+' && (forall|i: int|
            0 < i < s.len() ==> '0' <= #[trigger] s[i] <= '9') && ('0' <= s[0] <= '9' || s[0]
            == '+'),
{
    assert((seq!['+'] + s).skip(1) =~= s);
    if s.len() > 0 {
        if s[0] == '+' {
            let digits = s.skip(1);
            if port_value(s) is Some {
                assert forall|i: int| 0 < i < s.len() implies '0' <= #[trigger] s[i] <= '9' by {
                    assert(s[i] == digits[i - 1]);
                }
            }
            assert(!is_decimal(s[0]));
        }
    }
}

/// The last colon parts a host without brackets from its port, so that a host
/// may hold colons; a text behind it that names no port makes the URL unusable.
pub proof fn law_last_colon_parts(host: Seq<char>, port: Seq<char>, path: Seq<char>)
    requires
        forall|i: int| 0 <= i < host.len() ==> host[i] != '/' && #[trigger] host[i] != ']',
        forall|i: int|
            0 <= i < port.len() ==> port[i] != '/' && port[i] != ']' && #[trigger] port[i] != ':',
        path.len() > 0 ==> path[0] == '/',
    ensures
        host_port("https://"@ + (host + seq![':'] + port) + path) == match port_value(port) {
            Some(p) => Some((host, p)),
            None => None,
        },
{
    let authority = host.push(':') + port;
    assert(host + seq![':'] + port =~= authority);
    assert forall|i: int| 0 <= i < authority.len() implies authority[i] != '/' && authority[i]
        != ']' by {
        if i > host.len() {
            assert(authority[i] == port[i - host.len() - 1]);
        }
    }
    lemma_last_index_of_join(host, ':', port);
    lemma_last_index_absent(authority, ']');
    assert(authority.take(host.len() as int) =~= host);
    assert(authority.skip(host.len() as int + 1) =~= port);
    law_authority_is_found(authority, path);
}

/// Behind the last bracket a port follows only a colon: other text there is
/// ignored, and a text behind the colon that names no port makes the URL
/// unusable.
pub proof fn law_bracket_ends_the_host(front: Seq<char>, back: Seq<char>, path: Seq<char>)
    requires
        forall|i: int| 0 <= i < front.len() ==> front[i] != '/',
        forall|i: int| 0 <= i < back.len() ==> back[i] != '/' && #[trigger] back[i] != ']',
        path.len() > 0 ==> path[0] == '/',
    ensures
        ({
            let host = front + seq![']'];
            host_port("https://"@ + (host + back) + path) == if back.len() > 0 && back[0] == ':' {
                match port_value(back.skip(1)) {
                    Some(p) => Some((host, p)),
                    None => None,
                }
            } else {
                Some((host, 443u16))
            }
        }),
{
    let host = front.push(']');
    assert(front + seq![']'] =~= host);
    let authority = host + back;
    assert forall|i: int| 0 <= i < authority.len() implies authority[i] != '/' by {
        if i >= host.len() {
            assert(authority[i] == back[i - host.len()]);
        }
    }
    lemma_last_index_of_join(front, ']', back);
    assert(authority.take(front.len() as int + 1) =~= host);
    assert(authority.skip(front.len() as int + 1) =~= back);
    law_authority_is_found(authority, path);
}

/// A host with neither colon nor bracket, and no port, has the port of HTTPS.
pub proof fn law_https_port(host: Seq<char>, path: Seq<char>)
    requires
        host.len() > 0,
        forall|i: int|
            0 <= i < host.len() ==> host[i] != '/' && host[i] != ':' && #[trigger] host[i] != ']',
        path.len() > 0 ==> path[0] == '/',
    ensures
        host_port("https://"@ + host + path) == Some((host, 443u16)),
{
    law_default_port(host, path);
}

/// A URL that does not start with `https://` is unusable, and so is one that
/// holds nothing but slashes behind it.
pub proof fn law_only_https(url: Seq<char>)
    ensures
        !("https://"@.is_prefix_of(url)) ==> host_port(url) is None,
        "https://"@.is_prefix_of(url) && (forall|i: int| 8 <= i < url.len() ==> url[i] == '/')
            ==> host_port(url) is None,
{
    reveal_strlit("https://");
    lemma_trim_slashes(url);
    if "https://"@.is_prefix_of(url) && (forall|i: int| 8 <= i < url.len() ==> url[i] == '/') {
        let trimmed = trim_slashes(url);
        if trimmed.len() >= 8 {
            assert(trimmed.last() == url[trimmed.len() - 1]);
            assert(url[7] == "https://"@[7]);
            assert(trimmed.last() == '/');
        }
    }
}

/// The host of a URL stands in it, right behind the scheme.
pub proof fn law_host_stands_in_url(url: Seq<char>)
    ensures
        host_port(url) matches Some((host, _)) ==> ("https://"@ + host).is_prefix_of(url),
{
    if host_port(url) is Some {
        let host = host_port(url).unwrap().0;
        let trimmed = trim_slashes(url);
        lemma_trim_slashes(url);
        let n = SCHEME@.len() as int;
        let rest = trimmed.skip(n);
        lemma_first_index(rest, '/');
        let authority = rest.take(first_index(rest, '/'));
        lemma_last_index(authority, ']');
        lemma_last_index(authority, ':');
        assert(host =~= authority.take(host.len() as int));
        let whole = "https://"@ + host;
        assert forall|i: int| 0 <= i < whole.len() implies whole[i] == url[i] by {
            assert(trimmed[i] == url[i]);
            if i >= n {
                assert(whole[i] == host[i - n]);
                assert(host[i - n] == authority[i - n]);
                assert(authority[i - n] == rest[i - n]);
            } else {
                assert(SCHEME@[i] == trimmed[i]);
            }
        }
        assert(whole =~= url.take(whole.len() as int));
    }
}

} // verus!
