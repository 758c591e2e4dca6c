//! The HTTP side of the tunnel: routing visitors by host name, the request
//! the client replays against the local server, and what it makes of the
//! answer.
use crate::text::{
    after_first, before_first, find_byte, is_first_occurrence, lemma_split_at_first,
    lemma_split_without, prefix_before, str_equal, string_from_utf8_lossy, utf8_lossy,
};
use vstd::slice::slice_subrange;
use vstd::utf8::{
    decode_utf8, decode_utf8_encode_utf8, encode_utf8, encode_utf8_valid_utf8,
    is_char_boundary_iff_not_is_continuation_byte, length_of_first_scalar, pop_first_scalar,
    valid_utf8, valid_utf8_split,
};
use vstd::prelude::*;
use vstd::string::StringExecFns;

verus! {

/// The status reported when the local server's answer names none usable.
pub const BAD_GATEWAY: u16 = 502;

/// The views of an optional string.
pub open spec fn opt_view(o: Option<String>) -> Option<Seq<char>> {
    match o {
        Some(s) => Some(s@),
        None => None,
    }
}

/// The host part of a `host:port` server address: everything before the
/// first `:`, all of it when there is none.
pub fn server_host(server: &str) -> (r: String)
    ensures
        r@ == before_first(server@, ':'),
{
    prefix_before(server, ':')
}

/// The tunnel a visitor's `Host` header names: its first label, unless that
/// label is empty or is the first label of the server's own domain.
pub open spec fn spec_proxy_subdomain(host: Seq<char>, domain: Seq<char>) -> Option<Seq<char>> {
    let sub = before_first(host, '.');
    if sub.len() == 0 || sub == before_first(domain, '.') {
        None
    } else {
        Some(sub)
    }
}

/// The subdomain a visitor request is routed by, or `None` when the request
/// is for no tunnel (answered with 404 "no tunnel").
pub fn proxy_subdomain(host: &str, domain: &str) -> (r: Option<String>)
    ensures
        opt_view(r) == spec_proxy_subdomain(host@, domain@),
{
    let sub = prefix_before(host, '.');
    let apex = prefix_before(domain, '.');
    if sub.as_str().is_empty() || sub == apex {
        None
    } else {
        Some(sub)
    }
}

/// The body of the 404 answer for a subdomain no tunnel is registered for.
pub fn no_tunnel_message(subdomain: &str) -> (r: String)
    ensures
        r@ == "no tunnel for '"@ + subdomain@ + "'"@,
{
    let mut r = "no tunnel for '".to_owned();
    r.append(subdomain);
    r.append("'");
    r
}

/// The public address of a tunnel: `https://{subdomain}.{domain}`.
pub fn assigned_url(subdomain: &str, domain: &str) -> (r: String)
    ensures
        r@ == "https://"@ + subdomain@ + "."@ + domain@,
{
    let mut r = "https://".to_owned();
    r.append(subdomain);
    r.append(".");
    r.append(domain);
    r
}

/// The line one visitor header contributes to the replayed request: only
/// string values are kept, and `host` and `content-length` are dropped.
pub open spec fn header_line(k: Seq<char>, v: Option<Seq<char>>) -> Seq<char> {
    match v {
        Some(v) => if k != "host"@ && k != "content-length"@ {
            k + ": "@ + v + "\r\n"@
        } else {
            Seq::empty()
        },
        None => Seq::empty(),
    }
}

/// The header lines of the replayed request, in the visitor's order.
pub open spec fn header_lines(h: Seq<(Seq<char>, Option<Seq<char>>)>) -> Seq<char>
    decreases h.len(),
{
    if h.len() == 0 {
        Seq::empty()
    } else {
        header_lines(h.drop_last()) + header_line(h.last().0, h.last().1)
    }
}

/// The HTTP/1.1 request replayed against the local server.
pub open spec fn spec_local_request(
    method: Seq<char>,
    uri: Seq<char>,
    headers: Seq<(Seq<char>, Option<Seq<char>>)>,
) -> Seq<char> {
    method + " "@ + uri + " HTTP/1.1\r\n"@ + header_lines(headers) + "Host: localhost\r\n"@
        + "Connection: close\r\n"@ + "\r\n"@
}

/// What one visitor header contributes to the replayed request: a header
/// with a text value is replayed as the line `name: value\r\n` unless its
/// name is `host` or `content-length`; a header without a text value, and
/// those two, contribute nothing.
pub proof fn lemma_header_replayed(k: Seq<char>, v: Seq<char>)
    ensures
        k != "host"@ && k != "content-length"@ ==> header_lines(seq![(k, Some(v))]) == k + ": "@ + v
            + "\r\n"@,
        header_lines(seq![("host"@, Some(v))]) == Seq::<char>::empty(),
        header_lines(seq![("content-length"@, Some(v))]) == Seq::<char>::empty(),
        header_lines(seq![(k, None::<Seq<char>>)]) == Seq::<char>::empty(),
{
    reveal_with_fuel(header_lines, 2);
    assert(header_lines(Seq::<(Seq<char>, Option<Seq<char>>)>::empty()) == Seq::<char>::empty());
    assert(seq![(k, Some(v))].drop_last() =~= Seq::<(Seq<char>, Option<Seq<char>>)>::empty());
    assert(seq![("host"@, Some(v))].drop_last() =~= Seq::<(Seq<char>, Option<Seq<char>>)>::empty());
    assert(seq![("content-length"@, Some(v))].drop_last() =~= Seq::<(Seq<char>, Option<Seq<char>>)>::empty());
    assert(seq![(k, None::<Seq<char>>)].drop_last() =~= Seq::<(Seq<char>, Option<Seq<char>>)>::empty());
    assert(Seq::<char>::empty() + (k + ": "@ + v + "\r\n"@) =~= k + ": "@ + v + "\r\n"@);
    assert(Seq::<char>::empty() + Seq::<char>::empty() =~= Seq::<char>::empty());
}

/// Headers are replayed one after another in the visitor's order, each on
/// its own: the lines of two runs of headers are the lines of the first run
/// followed by those of the second.
pub proof fn lemma_header_lines_concat(
    a: Seq<(Seq<char>, Option<Seq<char>>)>,
    b: Seq<(Seq<char>, Option<Seq<char>>)>,
)
    ensures
        header_lines(a + b) == header_lines(a) + header_lines(b),
    decreases b.len(),
{
    if b.len() == 0 {
        assert(a + b =~= a);
        assert(header_lines(a) + header_lines(b) =~= header_lines(a));
    } else {
        lemma_header_lines_concat(a, b.drop_last());
        assert((a + b).drop_last() =~= a + b.drop_last());
        assert((a + b).last() == b.last());
        assert(header_lines(a + b) =~= header_lines(a) + header_lines(b));
    }
}

/// The replayed request carries every replayable visitor header where the
/// visitor put it: with the headers `a`, then `name: value` (a text value,
/// a name other than `host` and `content-length`), then `b`, the request is
/// the request line, the lines of `a`, the line `name: value\r\n`, the
/// lines of `b`, and the closing lines.
pub proof fn lemma_request_keeps_header(
    method: Seq<char>,
    uri: Seq<char>,
    a: Seq<(Seq<char>, Option<Seq<char>>)>,
    k: Seq<char>,
    v: Seq<char>,
    b: Seq<(Seq<char>, Option<Seq<char>>)>,
)
    requires
        k != "host"@,
        k != "content-length"@,
    ensures
        spec_local_request(method, uri, a + seq![(k, Some(v))] + b) == method + " "@ + uri
            + " HTTP/1.1\r\n"@ + header_lines(a) + (k + ": "@ + v + "\r\n"@) + header_lines(b)
            + "Host: localhost\r\nConnection: close\r\n\r\n"@,
{
    lemma_header_replayed(k, v);
    lemma_header_lines_concat(a, seq![(k, Some(v))]);
    lemma_header_lines_concat(a + seq![(k, Some(v))], b);
    reveal_strlit("Host: localhost\r\n");
    reveal_strlit("Connection: close\r\n");
    reveal_strlit("\r\n");
    reveal_strlit("Host: localhost\r\nConnection: close\r\n\r\n");
    assert(spec_local_request(method, uri, a + seq![(k, Some(v))] + b) =~= method + " "@ + uri
        + " HTTP/1.1\r\n"@ + header_lines(a) + (k + ": "@ + v + "\r\n"@) + header_lines(b)
        + "Host: localhost\r\nConnection: close\r\n\r\n"@);
}

/// The views of a list of headers whose values may be missing or not text.
pub open spec fn headers_view(h: Seq<(String, Option<String>)>) -> Seq<(Seq<char>, Option<Seq<char>>)> {
    h.map_values(|p: (String, Option<String>)| (p.0@, opt_view(p.1)))
}

/// Builds the request the client sends to the local server for a visitor
/// request: method `GET` and target `/` when they are missing, the visitor's
/// text-valued headers but `host` and `content-length`, then
/// `Host: localhost` and `Connection: close`.
pub fn local_request(
    method: Option<&str>,
    uri: Option<&str>,
    headers: &Vec<(String, Option<String>)>,
) -> (r: String)
    ensures
        r@ == spec_local_request(
            match method {
                Some(m) => m@,
                None => "GET"@,
            },
            match uri {
                Some(u) => u@,
                None => "/"@,
            },
            headers_view(headers@),
        ),
{
    let method = match method {
        Some(m) => m,
        None => "GET",
    };
    let uri = match uri {
        Some(u) => u,
        None => "/",
    };
    let mut r = method.to_owned();
    r.append(" ");
    r.append(uri);
    r.append(" HTTP/1.1\r\n");
    let ghost start = r@;
    let mut i: usize = 0;
    while i < headers.len()
        invariant
            i <= headers@.len(),
            start == method@ + " "@ + uri@ + " HTTP/1.1\r\n"@,
            r@ == start + header_lines(headers_view(headers@).take(i as int)),
        decreases headers@.len() - i,
    {
        let ghost before = r@;
        let (k, v) = &headers[i];
        match v {
            Some(v) => {
                if !str_equal(k.as_str(), "host") && !str_equal(k.as_str(), "content-length") {
                    r.append(k.as_str());
                    r.append(": ");
                    r.append(v.as_str());
                    r.append("\r\n");
                }
            },
            None => {},
        }
        proof {
            let hv = headers_view(headers@);
            assert(hv.take(i + 1).drop_last() =~= hv.take(i as int));
            assert(hv.take(i + 1).last() == hv[i as int]);
        }
        i = i + 1;
    }
    proof {
        assert(headers_view(headers@).take(headers@.len() as int) =~= headers_view(headers@));
    }
    r.append("Host: localhost\r\n");
    r.append("Connection: close\r\n");
    r.append("\r\n");
    r
}

} // verus!

verus! {

/// Line feed.
pub const LF: u8 = 10;

/// Carriage return.
pub const CR: u8 = 13;

/// The space between the fields of the status line.
pub const SPACE: u8 = 32;

/// The sign a number may start with.
pub const PLUS: u8 = 43;

/// An ASCII decimal digit.
pub open spec fn is_digit(b: u8) -> bool {
    48 <= b <= 57
}

/// The number the decimal digits `d` spell.
pub open spec fn decimal_value(d: Seq<u8>) -> nat
    decreases d.len(),
{
    if d.len() == 0 {
        0
    } else {
        decimal_value(d.drop_last()) * 10 + (d.last() - 48) as nat
    }
}

/// The digits of an unsigned number: all of `s` but a leading `+`.
pub open spec fn unsigned_digits(s: Seq<u8>) -> Seq<u8> {
    if s.len() > 0 && s[0] == PLUS {
        s.drop_first()
    } else {
        s
    }
}

/// Every byte of `d` is a decimal digit.
pub open spec fn all_digits(d: Seq<u8>) -> bool {
    forall|i: int| 0 <= i < d.len() ==> is_digit(d[i])
}

/// How `str::parse::<u16>` reads `s`: an optional `+`, then one or more
/// decimal digits spelling a number below 65536.
pub open spec fn spec_parse_u16(s: Seq<u8>) -> Option<u16> {
    let d = unsigned_digits(s);
    if d.len() == 0 || !all_digits(d) || decimal_value(d) > u16::MAX {
        None
    } else {
        Some(decimal_value(d) as u16)
    }
}

/// The first line of a response, as `str::lines` gives it: up to the first
/// line feed, without the carriage return before it; none for an empty
/// response.
pub open spec fn first_line(s: Seq<u8>) -> Option<Seq<u8>> {
    if s.len() == 0 {
        None
    } else {
        let l = before_first(s, LF);
        if (exists|i: int| is_first_occurrence(s, LF, i)) && l.len() > 0 && l.last() == CR {
            Some(l.drop_last())
        } else {
            Some(l)
        }
    }
}

/// The second space-separated field of a line, if the line has a space.
pub open spec fn second_field(l: Seq<u8>) -> Option<Seq<u8>> {
    match after_first(l, SPACE) {
        Some(rest) => Some(before_first(rest, SPACE)),
        None => None,
    }
}

/// The status the local server's answer reports: the second field of its
/// first line read as a number, or 502 when any of that fails.
pub open spec fn spec_status(s: Seq<u8>) -> u16 {
    match first_line(s) {
        Some(l) => match second_field(l) {
            Some(f) => match spec_parse_u16(f) {
                Some(v) => v,
                None => BAD_GATEWAY,
            },
            None => BAD_GATEWAY,
        },
        None => BAD_GATEWAY,
    }
}

/// An empty line (`\r\n\r\n`) starts at `i` in `s`.
pub open spec fn blank_line_at(s: Seq<u8>, i: int) -> bool {
    &&& 0 <= i
    &&& i + 4 <= s.len()
    &&& s[i] == CR
    &&& s[i + 1] == LF
    &&& s[i + 2] == CR
    &&& s[i + 3] == LF
}

/// `i` is where the first `\r\n\r\n` of `s` starts.
pub open spec fn first_blank_line(s: Seq<u8>, i: int) -> bool {
    blank_line_at(s, i) && forall|j: int| 0 <= j < i ==> !blank_line_at(s, j)
}

/// The body of the answer: what follows the first `\r\n\r\n`, nothing when
/// there is none.
pub open spec fn spec_body(s: Seq<u8>) -> Seq<u8> {
    if exists|i: int| first_blank_line(s, i) {
        s.skip((choose|i: int| first_blank_line(s, i)) + 4)
    } else {
        Seq::empty()
    }
}

/// A prefix of decimal digits never spells more than the whole.
pub proof fn lemma_decimal_prefix_le(d: Seq<u8>, i: int)
    requires
        0 <= i <= d.len(),
        forall|k: int| 0 <= k < d.len() ==> is_digit(d[k]),
    ensures
        decimal_value(d.take(i)) <= decimal_value(d),
    decreases d.len(),
{
    if i < d.len() {
        lemma_decimal_prefix_le(d.drop_last(), i);
        assert(d.drop_last().take(i) =~= d.take(i));
    } else {
        assert(d.take(i) =~= d);
    }
}

/// The decimal digits of `n`, without leading zeros.
pub open spec fn decimal(n: nat) -> Seq<u8>
    decreases n,
{
    if n < 10 {
        seq![(48 + n) as u8]
    } else {
        decimal(n / 10).push((48 + n % 10) as u8)
    }
}

/// The digits of `n` are digits, at least one, and spell `n`.
proof fn lemma_decimal(n: nat)
    ensures
        decimal(n).len() > 0,
        all_digits(decimal(n)),
        decimal(n)[0] != PLUS,
        decimal_value(decimal(n)) == n,
    decreases n,
{
    let d = decimal(n);
    if n >= 10 {
        lemma_decimal(n / 10);
        assert(d.drop_last() =~= decimal(n / 10));
        assert(n % 10 < 10);
        assert(d.last() == 48 + n % 10);
        assert(decimal_value(d) == decimal_value(d.drop_last()) * 10 + (d.last() - 48) as nat);
        assert(decimal_value(d) == (n / 10) * 10 + n % 10);
        assert(n / 10 * 10 + n % 10 == n) by (nonlinear_arith);
        assert(d[0] == decimal(n / 10)[0]);
    } else {
        assert(d.drop_last() =~= Seq::<u8>::empty());
        assert(d.last() == 48 + n);
        assert(decimal_value(d) == decimal_value(d.drop_last()) * 10 + (d.last() - 48) as nat);
    }
}

/// A line without a line feed, then `\r\n`: that line is the first one.
proof fn lemma_first_line_of(line: Seq<u8>, rest: Seq<u8>)
    requires
        forall|i: int| 0 <= i < line.len() ==> line[i] != LF,
    ensures
        first_line(line + seq![CR, LF] + rest) == Some(line),
{
    let s = line + seq![CR, LF] + rest;
    let lf: int = line.len() as int + 1;
    assert forall|j: int| 0 <= j < lf implies s[j] != LF by {
        if j < line.len() {
            assert(s[j] == line[j]);
        } else {
            assert(s[j] == CR);
        }
    }
    assert(s[lf] == LF);
    assert(is_first_occurrence(s, LF, lf));
    lemma_split_at_first(s, LF, lf);
    assert(s.take(lf).drop_last() =~= line);
}

/// After a version without spaces and one space come the digits, and then
/// nothing or a space: the digits are the second field.
proof fn lemma_second_field_of(version: Seq<u8>, d: Seq<u8>, reason: Seq<u8>)
    requires
        forall|i: int| 0 <= i < version.len() ==> version[i] != SPACE,
        all_digits(d),
        reason.len() == 0 || reason[0] == SPACE,
    ensures
        second_field(version + seq![SPACE] + d + reason) == Some(d),
{
    let line = version + seq![SPACE] + d + reason;
    let sp: int = version.len() as int;
    assert forall|j: int| 0 <= j < sp implies line[j] != SPACE by {
        assert(line[j] == version[j]);
    }
    assert(line[sp] == SPACE);
    assert(is_first_occurrence(line, SPACE, sp));
    lemma_split_at_first(line, SPACE, sp);
    let after = line.skip(sp + 1);
    assert(after =~= d + reason);
    assert forall|j: int| 0 <= j < d.len() implies after[j] != SPACE by {
        assert(after[j] == d[j]);
        assert(is_digit(d[j]));
    }
    if reason.len() > 0 {
        assert(after[d.len() as int] == SPACE);
        assert(is_first_occurrence(after, SPACE, d.len() as int));
        lemma_split_at_first(after, SPACE, d.len() as int);
        assert(after.take(d.len() as int) =~= d);
    } else {
        assert(after =~= d);
        lemma_split_without(after, SPACE);
    }
}

/// The status is the number the status line gives. For an answer whose
/// first line is a version (no space), a space, the decimal digits of any
/// `n` and then nothing or a space and a reason phrase, ending in `\r\n`,
/// the status is `n`, whatever `n` is and whatever follows the line.
pub proof fn lemma_status_of_status_line(version: Seq<u8>, n: u16, reason: Seq<u8>, rest: Seq<u8>)
    requires
        forall|i: int| 0 <= i < version.len() ==> version[i] != SPACE && version[i] != LF,
        forall|i: int| 0 <= i < reason.len() ==> reason[i] != LF,
        reason.len() == 0 || reason[0] == SPACE,
    ensures
        spec_status(version + seq![SPACE] + decimal(n as nat) + reason + seq![CR, LF] + rest) == n,
{
    let d = decimal(n as nat);
    lemma_decimal(n as nat);
    let line = version + seq![SPACE] + d + reason;
    assert forall|j: int| 0 <= j < line.len() implies line[j] != LF by {
        if j < version.len() {
            assert(line[j] == version[j]);
        } else if j == version.len() {
        } else if j < version.len() + 1 + d.len() {
            assert(line[j] == d[j - version.len() - 1]);
            assert(is_digit(d[j - version.len() - 1]));
        } else {
            assert(line[j] == reason[j - version.len() - 1 - d.len()]);
        }
    }
    lemma_first_line_of(line, rest);
    lemma_second_field_of(version, d, reason);
    assert(unsigned_digits(d) == d);
}

/// Reads a decimal `u16` as `str::parse::<u16>` does.
pub fn parse_u16(s: &[u8]) -> (r: Option<u16>)
    ensures
        r == spec_parse_u16(s@),
{
    let start: usize = if s.len() > 0 && s[0] == PLUS {
        1
    } else {
        0
    };
    let ghost d = unsigned_digits(s@);
    assert(d =~= s@.skip(start as int));
    if start == s.len() {
        return None;
    }
    let mut acc: u32 = 0;
    let mut i: usize = start;
    while i < s.len()
        invariant
            start <= i <= s@.len(),
            d == s@.skip(start as int),
            d == unsigned_digits(s@),
            d.len() > 0,
            forall|k: int| 0 <= k < i - start ==> is_digit(d[k]),
            acc as nat == decimal_value(d.take(i - start)),
            acc <= u16::MAX,
        decreases s@.len() - i,
    {
        let b: u8 = s[i];
        assert(d.len() == s@.len() - start);
        assert(d[i - start] == b);
        if b < 48 || b > 57 {
            assert(0 <= i - start < d.len() && !is_digit(d[i - start]));
            return None;
        }
        proof {
            assert(d.take(i - start + 1).drop_last() =~= d.take(i - start));
            assert(d.take(i - start + 1).last() == b);
        }
        acc = acc * 10 + (b - 48) as u32;
        i = i + 1;
        if acc > 65535 {
            proof {
                if all_digits(d) {
                    lemma_decimal_prefix_le(d, i - start);
                }
            }
            return None;
        }
    }
    proof {
        assert(d.take(d.len() as int) =~= d);
    }
    Some(acc as u16)
}

/// Where the first `\r\n\r\n` of `s` starts, if there is one.
fn find_blank_line(s: &[u8]) -> (r: Option<usize>)
    ensures
        r matches Some(i) ==> first_blank_line(s@, i as int),
        r is None ==> forall|j: int| !blank_line_at(s@, j),
{
    let mut i: usize = 0;
    while i < s.len() && 4 <= s.len() - i
        invariant
            i <= s@.len(),
            forall|j: int| 0 <= j < i ==> !blank_line_at(s@, j),
        decreases s@.len() - i,
    {
        if s[i] == CR && s[i + 1] == LF && s[i + 2] == CR && s[i + 3] == LF {
            return Some(i);
        }
        i = i + 1;
    }
    None
}

} // verus!

verus! {

/// What the client makes of the local server's answer.
pub struct LocalResponse {
    pub status: u16,
    pub body: String,
}

/// The status of an answer, computed as `spec_status` states.
fn status_of(resp: &[u8]) -> (r: u16)
    ensures
        r == spec_status(resp@),
{
    if resp.len() == 0 {
        return BAD_GATEWAY;
    }
    let line_end: usize = match find_byte(resp, LF) {
        Some(i) => {
            proof {
                lemma_split_at_first(resp@, LF, i as int);
                assert(exists|k: int| is_first_occurrence(resp@, LF, k));
            }
            if i > 0 && resp[i - 1] == CR {
                assert(resp@.take(i as int).drop_last() =~= resp@.take(i - 1));
                i - 1
            } else {
                i
            }
        },
        None => {
            proof {
                lemma_split_without(resp@, LF);
                assert(resp@.take(resp@.len() as int) =~= resp@);
                assert(!exists|k: int| is_first_occurrence(resp@, LF, k));
            }
            resp.len()
        },
    };
    let line = slice_subrange(resp, 0, line_end);
    assert(first_line(resp@) == Some(line@));
    match find_byte(line, SPACE) {
        None => {
            proof {
                lemma_split_without(line@, SPACE);
            }
            BAD_GATEWAY
        },
        Some(sp) => {
            proof {
                lemma_split_at_first(line@, SPACE, sp as int);
            }
            let rest = slice_subrange(line, sp + 1, line.len());
            assert(rest@ =~= line@.skip(sp + 1));
            let end: usize = match find_byte(rest, SPACE) {
                Some(j) => {
                    proof {
                        lemma_split_at_first(rest@, SPACE, j as int);
                    }
                    j
                },
                None => {
                    proof {
                        lemma_split_without(rest@, SPACE);
                        assert(rest@.take(rest@.len() as int) =~= rest@);
                    }
                    rest.len()
                },
            };
            let field = slice_subrange(rest, 0, end);
            assert(second_field(line@) == Some(field@));
            match parse_u16(field) {
                Some(v) => v,
                None => BAD_GATEWAY,
            }
        },
    }
}

/// The UTF-8 bytes of the text `String::from_utf8_lossy` makes of `resp`.
pub open spec fn lossy_bytes(resp: Seq<u8>) -> Seq<u8> {
    encode_utf8(utf8_lossy(resp))
}

/// What follows the first `\r\n\r\n` of valid UTF-8 is valid UTF-8: the
/// line feed before it is a character of its own.
proof fn lemma_body_valid_utf8(b: Seq<u8>, i: int)
    requires
        valid_utf8(b),
        first_blank_line(b, i),
    ensures
        valid_utf8(b.skip(i + 4)),
{
    assert(b[i + 3] == LF);
    is_char_boundary_iff_not_is_continuation_byte(b, i + 3);
    valid_utf8_split(b, i + 3);
    let t = b.subrange(i + 3, b.len() as int);
    assert(t[0] == LF);
    assert(length_of_first_scalar(t) == 1);
    assert(pop_first_scalar(t) =~= b.skip(i + 4));
}

impl LocalResponse {
    /// Reads the local server's raw answer as text, with invalid UTF-8
    /// replaced as `String::from_utf8_lossy` does: the status from the first
    /// line of that text (502 when that fails) and the body, all of the text
    /// after its first empty line. Lines and fields are found on the text's
    /// UTF-8 bytes, where `str`'s own methods find them.
    pub fn parse(resp: &[u8]) -> (r: LocalResponse)
        ensures
            r.status == spec_status(lossy_bytes(resp@)),
            r.body@ == decode_utf8(spec_body(lossy_bytes(resp@))),
            valid_utf8(resp@) ==> {
                &&& r.status == spec_status(resp@)
                &&& r.body@ == decode_utf8(spec_body(resp@))
            },
    {
        let text: String = string_from_utf8_lossy(resp);
        let bytes: &[u8] = text.as_str().as_bytes();
        proof {
            encode_utf8_valid_utf8(text@);
            if valid_utf8(resp@) {
                decode_utf8_encode_utf8(resp@);
            }
        }
        assert(bytes@ == lossy_bytes(resp@));
        let status: u16 = status_of(bytes);
        let body_bytes: &[u8] = match find_blank_line(bytes) {
            Some(i) => {
                assert(first_blank_line(bytes@, i as int));
                proof {
                    let k: int = choose|k: int| first_blank_line(bytes@, k);
                    assert(k == i);
                    lemma_body_valid_utf8(bytes@, i as int);
                }
                let n: usize = bytes.len();
                assert(i + 4 <= n);
                slice_subrange(bytes, i + 4, n)
            },
            None => {
                assert(!exists|i: int| first_blank_line(bytes@, i));
                slice_subrange(bytes, 0, 0)
            },
        };
        assert(body_bytes@ =~= spec_body(bytes@));
        LocalResponse { status, body: string_from_utf8_lossy(body_bytes) }
    }

    /// The answer sent back when the local server cannot be reached: 502 and
    /// `Connection refused: {reason}`.
    pub fn refused(reason: &str) -> (r: LocalResponse)
        ensures
            r.status == BAD_GATEWAY,
            r.body@ == "Connection refused: "@ + reason@,
    {
        let mut body = "Connection refused: ".to_owned();
        body.append(reason);
        LocalResponse { status: BAD_GATEWAY, body }
    }
}

/// The status the server answers a visitor with, from the `status` number of
/// the client's reply: 502 when there is none, and the number cut to 16 bits
/// otherwise.
pub fn reply_status(status: Option<u64>) -> (r: u16)
    ensures
        r == (match status {
            Some(n) => n as u16,
            None => BAD_GATEWAY,
        }),
{
    match status {
        Some(n) => n as u16,
        None => BAD_GATEWAY,
    }
}

} // verus!

verus! {

/// The entries whose value is text, in order.
pub open spec fn text_entries(h: Seq<(Seq<char>, Option<Seq<char>>)>) -> Seq<(Seq<char>, Seq<char>)>
    decreases h.len(),
{
    if h.len() == 0 {
        Seq::empty()
    } else {
        let rest = text_entries(h.drop_last());
        match h.last().1 {
            Some(v) => rest.push((h.last().0, v)),
            None => rest,
        }
    }
}

/// The headers the server copies onto a visitor's answer from the client's
/// reply: the entries whose value is text, in order.
pub fn text_headers(headers: &Vec<(String, Option<String>)>) -> (r: Vec<(String, String)>)
    ensures
        r@.map_values(|p: (String, String)| (p.0@, p.1@)) == text_entries(headers_view(headers@)),
{
    let ghost hv = headers_view(headers@);
    let mut r: Vec<(String, String)> = Vec::new();
    let mut i: usize = 0;
    while i < headers.len()
        invariant
            i <= headers@.len(),
            hv == headers_view(headers@),
            r@.map_values(|p: (String, String)| (p.0@, p.1@)) == text_entries(hv.take(i as int)),
        decreases headers@.len() - i,
    {
        let ghost before = r@;
        let (k, v) = &headers[i];
        match v {
            Some(v) => {
                r.push((k.clone(), v.clone()));
            },
            None => {},
        }
        proof {
            assert(hv.take(i + 1).drop_last() =~= hv.take(i as int));
            assert(hv.take(i + 1).last() == hv[i as int]);
            assert(r@.map_values(|p: (String, String)| (p.0@, p.1@)) =~= text_entries(
                hv.take(i + 1),
            ));
        }
        i = i + 1;
    }
    assert(hv.take(headers@.len() as int) =~= hv);
    r
}

} // verus!
