//! What the orchestrator reads out of a service URL: scheme, host and port.
//! The parsing itself is the `url` crate's; the rules applied to its result —
//! which hosts may be published, which schemes are accepted — are verified
//! here.
use vstd::prelude::*;

use vstd::string::StringExecFns;

use crate::codec::{digit_val, is_digit};
use crate::facade::SenseVoiceError;
use crate::text::string_to_chars;

verus! {

/// The name a wrapper gives to what `url::Url::parse` finds in a URL: `None`
/// when the text is not a valid URL, else the scheme, the host (if any) and
/// the port or the scheme's known default port (if any). A function of the
/// text alone.
pub uninterp spec fn url_parts_of(s: Seq<char>) -> Option<
    (Seq<char>, Option<Seq<char>>, Option<u16>),
>;

/// Relies on url::Url: `parse`, then `scheme`, `host_str` and
/// `port_or_known_default` of the parsed URL. A parse failure hands back the
/// parser's own message, of which nothing is assumed.
#[verifier::external_body]
pub(crate) fn url_parts(s: &str) -> (r: Result<(String, Option<String>, Option<u16>), String>)
    ensures
        match r {
            Ok(parts) => url_parts_of(s@) matches Some(m) && parts.0@ == m.0 && (match (
                parts.1,
                m.1,
            ) {
                (Some(h), Some(hm)) => h@ == hm,
                (None, None) => true,
                _ => false,
            }) && parts.2 == m.2,
            Err(_) => url_parts_of(s@) is None,
        },
{
    match url::Url::parse(s) {
        Ok(parsed) => {
            let scheme = parsed.scheme().to_string();
            let host = parsed.host_str().map(|h| h.to_string());
            let port = parsed.port_or_known_default();
            Ok((scheme, host, port))
        },
        Err(err) => Err(err.to_string()),
    }
}

/// The host and port of a service URL: the URL must parse, name a host, and
/// have a port or a known default one.
pub fn parse_host_and_port(service_url: &str) -> (r: Result<(String, u16), SenseVoiceError>)
    ensures
        match r {
            Ok((host, port)) => url_parts_of(service_url@) matches Some((_, Some(h), Some(p)))
                && host@ == h && port == p,
            Err(e) => match url_parts_of(service_url@) {
                Some((_, h, p)) => (h is None ==> (e matches SenseVoiceError::Url(m) && m@
                    == "服务地址缺少主机名"@)) && (h is Some && p is None ==> (e
                    matches SenseVoiceError::Url(m) && m@ == "服务地址缺少端口"@)) && (h is Some
                    && p is Some ==> false),
                None => e is Url,
            },
        },
{
    let (_scheme, host, port) = match url_parts(service_url) {
        Ok(parts) => parts,
        Err(detail) => {
            return Err(SenseVoiceError::Url(detail));
        },
    };
    let Some(host) = host else {
        return Err(SenseVoiceError::Url(String::from_str("服务地址缺少主机名")));
    };
    let Some(port) = port else {
        return Err(SenseVoiceError::Url(String::from_str("服务地址缺少端口")));
    };
    Ok((host, port))
}

/// A textual IPv4 address as Rust's address parser accepts it: four decimal
/// octets, each at most 255, with no leading zeros.
pub open spec fn is_ipv4_octet(s: Seq<char>) -> bool {
    &&& 1 <= s.len() <= 3
    &&& (forall|i: int| 0 <= i < s.len() ==> is_digit(#[trigger] s[i]))
    &&& (s.len() > 1 ==> s[0] != '0')
    &&& octet_val(s) <= 255
}

/// The value of up to three digit characters.
pub open spec fn octet_val(s: Seq<char>) -> nat
    decreases s.len(),
{
    if s.len() == 0 {
        0
    } else {
        octet_val(s.drop_last()) * 10 + digit_val(s.last())
    }
}

/// A dotted-quad IPv4 literal.
pub open spec fn is_ipv4_literal(s: Seq<char>) -> bool {
    exists|a: int, b: int, c: int|
        0 < a < b - 1 && b < c - 1 && c < s.len() - 1 && #[trigger] trio(a, b, c) && s[a] == '.'
            && s[b] == '.' && s[c] == '.' && is_ipv4_octet(s.subrange(0, a)) && is_ipv4_octet(
            s.subrange(a + 1, b),
        ) && is_ipv4_octet(s.subrange(b + 1, c)) && is_ipv4_octet(
            s.subrange(c + 1, s.len() as int),
        )
}

/// A trigger hook for the three dot positions.
pub open spec fn trio(a: int, b: int, c: int) -> bool {
    true
}

fn parse_octet(v: &Vec<char>, from: usize, to: usize) -> (r: Option<u8>)
    requires
        from <= to <= v@.len(),
    ensures
        r is Some <==> is_ipv4_octet(v@.subrange(from as int, to as int)),
{
    let s = Ghost(v@.subrange(from as int, to as int));
    if to - from < 1 || to - from > 3 {
        return None;
    }
    let mut value: u32 = 0;
    let mut i: usize = from;
    while i < to
        invariant
            from <= i <= to <= v@.len(),
            s@ == v@.subrange(from as int, to as int),
            1 <= to - from <= 3,
            forall|j: int| 0 <= j < i - from ==> is_digit(#[trigger] s@[j]),
            value == octet_val(s@.take(i - from)),
            i - from == 0 ==> value == 0,
            i - from == 1 ==> value <= 9,
            i - from == 2 ==> value <= 99,
            i - from == 3 ==> value <= 999,
        decreases to - i,
    {
        let c = v[i];
        proof {
            assert(s@[i - from] == v@[i as int]);
            assert(s@.take(i - from + 1).drop_last() =~= s@.take(i - from));
            assert(s@.take(i - from + 1).last() == s@[i - from]);
        }
        if !('0' <= c && c <= '9') {
            return None;
        }
        value = value * 10 + ((c as u32) - ('0' as u32));
        i += 1;
    }
    proof {
        assert(s@.take(to - from) =~= s@);
    }
    if to - from > 1 {
        let c0 = v[from];
        proof {
            assert(s@[0] == v@[from as int]);
        }
        if c0 == '0' {
            return None;
        }
    }
    if value > 255 {
        return None;
    }
    Some(value as u8)
}

/// Whether a host is a textual IPv4 address.
pub fn is_ipv4_host(host: &str) -> (r: bool)
    ensures
        r == is_ipv4_literal(host@),
{
    let v = string_to_chars(host);
    let n = v.len();
    // Find the three dots; any other count is not a dotted quad.
    let mut dots: Vec<usize> = Vec::new();
    let mut i: usize = 0;
    while i < n
        invariant
            i <= n,
            n == v@.len(),
            v@ == host@,
            forall|k: int| 0 <= k < dots@.len() ==> 0 <= #[trigger] dots@[k] < i && v@[dots@[k] as int]
                == '.',
            forall|j: int| 0 <= j < i && v@[j] == '.' ==> exists|k: int|
                0 <= k < dots@.len() && #[trigger] dots@[k] == j,
            forall|k1: int, k2: int| 0 <= k1 < k2 < dots@.len() ==> #[trigger] dots@[k1]
                < #[trigger] dots@[k2],
        decreases n - i,
    {
        if v[i] == '.' {
            let ghost prev = dots@;
            dots.push(i);
            proof {
                assert forall|j: int| 0 <= j < i + 1 && v@[j] == '.' implies exists|k: int|
                    0 <= k < dots@.len() && #[trigger] dots@[k] == j by {
                    if j < i {
                        let k = choose|k: int| 0 <= k < prev.len() && #[trigger] prev[k] == j;
                        assert(dots@[k] == j);
                    } else {
                        assert(dots@[dots@.len() - 1] == i);
                    }
                }
            }
        }
        i += 1;
    }
    if dots.len() != 3 {
        proof {
            if is_ipv4_literal(host@) {
                let (a, b, c) = choose|a: int, b: int, c: int|
                    0 < a < b - 1 && b < c - 1 && c < host@.len() - 1 && #[trigger] trio(a, b, c)
                        && host@[a] == '.' && host@[b] == '.' && host@[c] == '.' && is_ipv4_octet(
                        host@.subrange(0, a),
                    ) && is_ipv4_octet(host@.subrange(a + 1, b)) && is_ipv4_octet(
                        host@.subrange(b + 1, c),
                    ) && is_ipv4_octet(host@.subrange(c + 1, host@.len() as int));
                assert(exists|k: int| 0 <= k < dots@.len() && #[trigger] dots@[k] == a);
                assert(exists|k: int| 0 <= k < dots@.len() && #[trigger] dots@[k] == b);
                assert(exists|k: int| 0 <= k < dots@.len() && #[trigger] dots@[k] == c);
                // Three distinct dot positions exist, and octets hold no dots,
                // so there are exactly these three.
                assert(dots@.len() >= 3) by {
                    let ka = choose|k: int| 0 <= k < dots@.len() && #[trigger] dots@[k] == a;
                    let kb = choose|k: int| 0 <= k < dots@.len() && #[trigger] dots@[k] == b;
                    let kc = choose|k: int| 0 <= k < dots@.len() && #[trigger] dots@[k] == c;
                    assert(ka != kb && kb != kc && ka != kc);
                    if dots@.len() <= 2 {
                        assert(false);
                    }
                }
                if dots@.len() > 3 {
                    lemma_octets_have_no_dots(host@, a, b, c, dots@);
                }
            }
        }
        return false;
    }
    let a = dots[0];
    let b = dots[1];
    let c = dots[2];
    if !(0 < a && a + 1 < b && b + 1 < c && c + 1 < n) {
        proof {
            if is_ipv4_literal(host@) {
                let (a2, b2, c2) = choose|a2: int, b2: int, c2: int|
                    0 < a2 < b2 - 1 && b2 < c2 - 1 && c2 < host@.len() - 1 && #[trigger] trio(
                        a2,
                        b2,
                        c2,
                    ) && host@[a2] == '.' && host@[b2] == '.' && host@[c2] == '.' && is_ipv4_octet(
                        host@.subrange(0, a2),
                    ) && is_ipv4_octet(host@.subrange(a2 + 1, b2)) && is_ipv4_octet(
                        host@.subrange(b2 + 1, c2),
                    ) && is_ipv4_octet(host@.subrange(c2 + 1, host@.len() as int));
                lemma_three_dots_are_the_dots(host@, a2, b2, c2, dots@);
            }
        }
        return false;
    }
    let o1 = parse_octet(&v, 0, a);
    let o2 = parse_octet(&v, a + 1, b);
    let o3 = parse_octet(&v, b + 1, c);
    let o4 = parse_octet(&v, c + 1, n);
    let ok = o1.is_some() && o2.is_some() && o3.is_some() && o4.is_some();
    proof {
        if ok {
            assert(trio(a as int, b as int, c as int));
        } else {
            if is_ipv4_literal(host@) {
                let (a2, b2, c2) = choose|a2: int, b2: int, c2: int|
                    0 < a2 < b2 - 1 && b2 < c2 - 1 && c2 < host@.len() - 1 && #[trigger] trio(
                        a2,
                        b2,
                        c2,
                    ) && host@[a2] == '.' && host@[b2] == '.' && host@[c2] == '.' && is_ipv4_octet(
                        host@.subrange(0, a2),
                    ) && is_ipv4_octet(host@.subrange(a2 + 1, b2)) && is_ipv4_octet(
                        host@.subrange(b2 + 1, c2),
                    ) && is_ipv4_octet(host@.subrange(c2 + 1, host@.len() as int));
                lemma_three_dots_are_the_dots(host@, a2, b2, c2, dots@);
            }
        }
    }
    ok
}

/// In a dotted quad the only dots are the three separators, so a list of all
/// dot positions has exactly three entries.
proof fn lemma_octets_have_no_dots(s: Seq<char>, a: int, b: int, c: int, dots: Seq<usize>)
    requires
        0 < a < b - 1 && b < c - 1 && c < s.len() - 1,
        s[a] == '.' && s[b] == '.' && s[c] == '.',
        is_ipv4_octet(s.subrange(0, a)),
        is_ipv4_octet(s.subrange(a + 1, b)),
        is_ipv4_octet(s.subrange(b + 1, c)),
        is_ipv4_octet(s.subrange(c + 1, s.len() as int)),
        forall|k: int| 0 <= k < dots.len() ==> 0 <= #[trigger] dots[k] < s.len() && s[dots[k] as int]
            == '.',
        forall|k1: int, k2: int| 0 <= k1 < k2 < dots.len() ==> #[trigger] dots[k1]
            < #[trigger] dots[k2],
    ensures
        dots.len() <= 3,
{
    assert forall|j: int| 0 <= j < s.len() && s[j] == '.' implies j == a || j == b || j == c by {
        lemma_dot_positions(s, a, b, c, j);
    }
    // Strictly increasing positions cannot land on three values four times.
    if dots.len() >= 4 {
        assert(dots[0] < dots[1] < dots[2] < dots[3]);
        assert(dots[0] as int == a || dots[0] as int == b || dots[0] as int == c);
        assert(dots[3] as int == a || dots[3] as int == b || dots[3] as int == c);
        assert(false);
    }
}

/// A dot inside a dotted quad is one of the three separators.
proof fn lemma_dot_positions(s: Seq<char>, a: int, b: int, c: int, j: int)
    requires
        0 < a < b - 1 && b < c - 1 && c < s.len() - 1,
        is_ipv4_octet(s.subrange(0, a)),
        is_ipv4_octet(s.subrange(a + 1, b)),
        is_ipv4_octet(s.subrange(b + 1, c)),
        is_ipv4_octet(s.subrange(c + 1, s.len() as int)),
        0 <= j < s.len(),
        s[j] == '.',
    ensures
        j == a || j == b || j == c,
{
    if j < a {
        assert(is_digit(s.subrange(0, a)[j]));
    } else if a < j && j < b {
        assert(is_digit(s.subrange(a + 1, b)[j - a - 1]));
    } else if b < j && j < c {
        assert(is_digit(s.subrange(b + 1, c)[j - b - 1]));
    } else if c < j {
        assert(is_digit(s.subrange(c + 1, s.len() as int)[j - c - 1]));
    }
}

/// When a text is a dotted quad, its three separators are exactly the three
/// collected dot positions, in order.
proof fn lemma_three_dots_are_the_dots(s: Seq<char>, a: int, b: int, c: int, dots: Seq<usize>)
    requires
        0 < a < b - 1 && b < c - 1 && c < s.len() - 1,
        s[a] == '.' && s[b] == '.' && s[c] == '.',
        is_ipv4_octet(s.subrange(0, a)),
        is_ipv4_octet(s.subrange(a + 1, b)),
        is_ipv4_octet(s.subrange(b + 1, c)),
        is_ipv4_octet(s.subrange(c + 1, s.len() as int)),
        dots.len() == 3,
        forall|k: int| 0 <= k < dots.len() ==> 0 <= #[trigger] dots[k] < s.len() && s[dots[k] as int]
            == '.',
        forall|j: int| 0 <= j < s.len() && s[j] == '.' ==> exists|k: int|
            0 <= k < dots.len() && #[trigger] dots[k] == j,
        forall|k1: int, k2: int| 0 <= k1 < k2 < dots.len() ==> #[trigger] dots[k1]
            < #[trigger] dots[k2],
    ensures
        dots[0] as int == a,
        dots[1] as int == b,
        dots[2] as int == c,
{
    assert forall|j: int| 0 <= j < s.len() && s[j] == '.' implies j == a || j == b || j == c by {
        lemma_dot_positions(s, a, b, c, j);
    }
    assert(exists|k: int| 0 <= k < dots.len() && #[trigger] dots[k] == a);
    assert(exists|k: int| 0 <= k < dots.len() && #[trigger] dots[k] == b);
    assert(exists|k: int| 0 <= k < dots.len() && #[trigger] dots[k] == c);
    let ka = choose|k: int| 0 <= k < dots.len() && #[trigger] dots[k] == a;
    let kb = choose|k: int| 0 <= k < dots.len() && #[trigger] dots[k] == b;
    let kc = choose|k: int| 0 <= k < dots.len() && #[trigger] dots[k] == c;
    assert(ka == 0 && kb == 1 && kc == 2) by {
        assert(ka < kb && kb < kc) by {
            if ka >= kb {
                assert(dots[kb] <= dots[ka]);
            }
            if kb >= kc {
                assert(dots[kc] <= dots[kb]);
            }
        }
    }
}

/// The host a container port may be published on: `localhost` becomes the
/// loopback address, a textual IPv4 address stands as it is, anything else
/// is rejected as unsupported.
pub fn normalize_publish_host(host: &str) -> (r: Result<String, SenseVoiceError>)
    ensures
        crate::model::eq_ignore_ascii_case_spec(host@, "localhost"@) ==> (r matches Ok(h) && h@
            == "127.0.0.1"@),
        !crate::model::eq_ignore_ascii_case_spec(host@, "localhost"@) && is_ipv4_literal(host@)
            ==> (r matches Ok(h) && h@ == host@),
        !crate::model::eq_ignore_ascii_case_spec(host@, "localhost"@) && !is_ipv4_literal(host@)
            ==> (r matches Err(SenseVoiceError::Config(m)) && m@
            == "Docker 模式下服务地址主机仅支持 localhost 或 IPv4 地址"@),
{
    if crate::model::eq_ignore_ascii_case(host, "localhost") {
        return Ok(String::from_str("127.0.0.1"));
    }
    if is_ipv4_host(host) {
        return Ok(String::from_str(host));
    }
    Err(
        SenseVoiceError::Config(
            String::from_str("Docker 模式下服务地址主机仅支持 localhost 或 IPv4 地址"),
        ),
    )
}

/// The port of a service URL, for the in-container health probe.
pub fn extract_port_from_url(service_url: &str) -> (r: Option<u16>)
    ensures
        r == (match url_parts_of(service_url@) {
            Some((_, _, p)) => p,
            None => None::<u16>,
        }),
{
    match url_parts(service_url) {
        Ok((_, _, port)) => port,
        Err(_) => None,
    }
}

} // verus!
