//! Connection addresses of the form `user@ip:port`, with an IPv4 host.

use vstd::prelude::*;
use vstd::string::*;
use crate::search::{
    count_char, count_of, find_char, lemma_count_char_concat, lemma_count_char_contains,
    lemma_count_char_once, lemma_count_char_single,
};
use crate::text::{
    all_digits, chars_of, decimal, decimal_value, digit_value, is_digit, lemma_decimal_len,
    lemma_decimal_round_trip, push_decimal,
};

verus! {

/// Why a connection address was refused.
#[derive(Clone, Copy, Debug, PartialEq, Eq, Structural)]
pub enum ParseError {
    /// The text does not hold exactly one `@`.
    BadFormat,
    /// What follows the `@` is no IPv4 socket address.
    BadAddress,
}

/// Where to connect, and as whom.
#[derive(Clone, Debug, PartialEq, Eq)]
pub struct ConnectionParams {
    pub user: String,
    pub host: [u8; 4],
    pub port: u16,
}

/// What a `ConnectionParams` stands for.
pub ghost struct ConnectionParamsView {
    pub user: Seq<char>,
    pub host: Seq<u8>,
    pub port: u16,
}

impl View for ConnectionParams {
    type V = ConnectionParamsView;

    open spec fn view(&self) -> ConnectionParamsView {
        ConnectionParamsView { user: self.user@, host: self.host@, port: self.port }
    }
}

/// The end of the run of digits that starts at `i`: the first position at or
/// after `i` that holds no digit, or the length of `s`.
pub open spec fn digits_end(s: Seq<char>, i: int) -> int
    decreases s.len() - i,
{
    if 0 <= i < s.len() && is_digit(s[i]) {
        digits_end(s, i + 1)
    } else {
        i
    }
}

/// Whether `t` is one part of a dotted IPv4 address: one to three digits,
/// no leading zero in front of another digit, and at most 255.
pub open spec fn is_octet_text(t: Seq<char>) -> bool {
    &&& 1 <= t.len() <= 3
    &&& all_digits(t)
    &&& t.len() > 1 ==> t[0] != '0'
    &&& decimal_value(t) <= 255
}

/// Whether `t` is a port number: digits, at least one, that denote at most
/// 65535. Leading zeros are accepted.
pub open spec fn is_port_text(t: Seq<char>) -> bool {
    &&& t.len() >= 1
    &&& all_digits(t)
    &&& decimal_value(t) <= 65535
}

/// Host and port of the socket address `t`, which reads
/// `octet.octet.octet.octet:port`; `None` where `t` is no such text.
pub open spec fn parse_socket_addr(t: Seq<char>) -> Option<(Seq<u8>, u16)> {
    let e0 = digits_end(t, 0);
    let e1 = digits_end(t, e0 + 1);
    let e2 = digits_end(t, e1 + 1);
    let e3 = digits_end(t, e2 + 1);
    let e4 = digits_end(t, e3 + 1);
    let o0 = t.subrange(0, e0);
    let o1 = t.subrange(e0 + 1, e1);
    let o2 = t.subrange(e1 + 1, e2);
    let o3 = t.subrange(e2 + 1, e3);
    let p = t.subrange(e3 + 1, e4);
    if e0 < t.len() && t[e0] == '.' && e1 < t.len() && t[e1] == '.' && e2 < t.len() && t[e2] == '.'
        && e3 < t.len() && t[e3] == ':' && e4 == t.len() && is_octet_text(o0) && is_octet_text(o1)
        && is_octet_text(o2) && is_octet_text(o3) && is_port_text(p) {
        Some(
            (
                seq![
                    decimal_value(o0) as u8,
                    decimal_value(o1) as u8,
                    decimal_value(o2) as u8,
                    decimal_value(o3) as u8,
                ],
                decimal_value(p) as u16,
            ),
        )
    } else {
        None
    }
}

/// What the address `s` stands for. A text with no `@`, or with more than
/// one, is refused as `BadFormat`; one whose part behind the `@` is no IPv4
/// socket address, as `BadAddress`. The user is all that stands before the
/// `@`, and may be empty.
pub open spec fn parse_address_spec(s: Seq<char>) -> Result<ConnectionParamsView, ParseError> {
    if count_char(s, '@') != 1 {
        Err(ParseError::BadFormat)
    } else {
        let at = s.index_of('@');
        match parse_socket_addr(s.skip(at + 1)) {
            Some((host, port)) => Ok(ConnectionParamsView { user: s.take(at), host, port }),
            None => Err(ParseError::BadAddress),
        }
    }
}

/// The dotted text of a host of four octets.
pub open spec fn host_text(host: Seq<u8>) -> Seq<char> {
    decimal(host[0] as nat) + seq!['.'] + decimal(host[1] as nat) + seq!['.'] + decimal(
        host[2] as nat,
    ) + seq!['.'] + decimal(host[3] as nat)
}

/// The socket address text of a host and a port.
pub open spec fn socket_addr_text(host: Seq<u8>, port: u16) -> Seq<char> {
    host_text(host) + seq![':'] + decimal(port as nat)
}

/// The address text of connection parameters: `user@ip:port`.
pub open spec fn address_text(p: ConnectionParamsView) -> Seq<char> {
    p.user + seq!['@'] + socket_addr_text(p.host, p.port)
}

/// A run of digits that ends at the end of the text, or in front of a
/// character that is no digit, ends there for `digits_end` too.
pub proof fn lemma_digits_end_run(s: Seq<char>, i: int, j: int)
    requires
        0 <= i <= j <= s.len(),
        forall|k: int| i <= k < j ==> is_digit(#[trigger] s[k]),
        j < s.len() ==> !is_digit(s[j]),
    ensures
        digits_end(s, i) == j,
    decreases j - i,
{
    if i < j {
        lemma_digits_end_run(s, i + 1, j);
    }
}

/// `digits_end` passes over digits only.
pub proof fn lemma_digits_end(s: Seq<char>, i: int)
    requires
        0 <= i <= s.len(),
    ensures
        i <= digits_end(s, i) <= s.len(),
        all_digits(s.subrange(i, digits_end(s, i))),
        digits_end(s, i) < s.len() ==> !is_digit(s[digits_end(s, i)]),
    decreases s.len() - i,
{
    if i < s.len() && is_digit(s[i]) {
        lemma_digits_end(s, i + 1);
        let e = digits_end(s, i);
        assert forall|k: int| 0 <= k < e - i implies is_digit(#[trigger] s.subrange(i, e)[k]) by {
            if k > 0 {
                assert(s.subrange(i, e)[k] == s.subrange(i + 1, e)[k - 1]);
            }
        }
    }
}

/// The numeral of an octet is an octet text.
pub proof fn lemma_octet_text(v: u8)
    ensures
        is_octet_text(decimal(v as nat)),
        decimal_value(decimal(v as nat)) == v,
{
    lemma_decimal_round_trip(v as nat);
    lemma_decimal_len(v as nat);
}

/// The numeral of a port is a port text.
pub proof fn lemma_port_text(v: u16)
    ensures
        is_port_text(decimal(v as nat)),
        decimal_value(decimal(v as nat)) == v,
{
    lemma_decimal_round_trip(v as nat);
}

/// A socket address put together from four octet texts and a port text,
/// with dots and a colon between them, is read as just these.
pub proof fn lemma_parse_socket_addr_composed(
    o0: Seq<char>,
    o1: Seq<char>,
    o2: Seq<char>,
    o3: Seq<char>,
    p: Seq<char>,
)
    requires
        is_octet_text(o0),
        is_octet_text(o1),
        is_octet_text(o2),
        is_octet_text(o3),
        is_port_text(p),
    ensures
        parse_socket_addr(o0 + seq!['.'] + o1 + seq!['.'] + o2 + seq!['.'] + o3 + seq![':'] + p)
            == Some(
            (
                seq![
                    decimal_value(o0) as u8,
                    decimal_value(o1) as u8,
                    decimal_value(o2) as u8,
                    decimal_value(o3) as u8,
                ],
                decimal_value(p) as u16,
            ),
        ),
{
    let t = o0 + seq!['.'] + o1 + seq!['.'] + o2 + seq!['.'] + o3 + seq![':'] + p;
    let e0 = o0.len() as int;
    let e1 = e0 + 1 + o1.len();
    let e2 = e1 + 1 + o2.len();
    let e3 = e2 + 1 + o3.len();
    let e4 = e3 + 1 + p.len();
    assert(t.len() == e4);
    assert(t[e0] == '.');
    assert(t[e1] == '.');
    assert(t[e2] == '.');
    assert(t[e3] == ':');
    assert(t.subrange(0, e0) =~= o0);
    assert(t.subrange(e0 + 1, e1) =~= o1);
    assert(t.subrange(e1 + 1, e2) =~= o2);
    assert(t.subrange(e2 + 1, e3) =~= o3);
    assert(t.subrange(e3 + 1, e4) =~= p);
    assert forall|k: int| 0 <= k < e0 implies is_digit(#[trigger] t[k]) by {
        assert(t[k] == o0[k]);
    }
    assert forall|k: int| e0 + 1 <= k < e1 implies is_digit(#[trigger] t[k]) by {
        assert(t[k] == o1[k - e0 - 1]);
    }
    assert forall|k: int| e1 + 1 <= k < e2 implies is_digit(#[trigger] t[k]) by {
        assert(t[k] == o2[k - e1 - 1]);
    }
    assert forall|k: int| e2 + 1 <= k < e3 implies is_digit(#[trigger] t[k]) by {
        assert(t[k] == o3[k - e2 - 1]);
    }
    assert forall|k: int| e3 + 1 <= k < e4 implies is_digit(#[trigger] t[k]) by {
        assert(t[k] == p[k - e3 - 1]);
    }
    lemma_digits_end_run(t, 0, e0);
    lemma_digits_end_run(t, e0 + 1, e1);
    lemma_digits_end_run(t, e1 + 1, e2);
    lemma_digits_end_run(t, e2 + 1, e3);
    lemma_digits_end_run(t, e3 + 1, e4);
}

/// Whatever is read as a socket address is four octet texts and a port
/// text with dots and a colon between them.
pub proof fn lemma_parse_socket_addr_shape(t: Seq<char>)
    requires
        parse_socket_addr(t) is Some,
    ensures
        exists|o0: Seq<char>, o1: Seq<char>, o2: Seq<char>, o3: Seq<char>, p: Seq<char>|
            #![auto]
            t == o0 + seq!['.'] + o1 + seq!['.'] + o2 + seq!['.'] + o3 + seq![':'] + p
                && is_octet_text(o0) && is_octet_text(o1) && is_octet_text(o2) && is_octet_text(
                o3,
            ) && is_port_text(p),
{
    let e0 = digits_end(t, 0);
    let e1 = digits_end(t, e0 + 1);
    let e2 = digits_end(t, e1 + 1);
    let e3 = digits_end(t, e2 + 1);
    let e4 = digits_end(t, e3 + 1);
    lemma_digits_end(t, 0);
    lemma_digits_end(t, e0 + 1);
    lemma_digits_end(t, e1 + 1);
    lemma_digits_end(t, e2 + 1);
    lemma_digits_end(t, e3 + 1);
    let o0 = t.subrange(0, e0);
    let o1 = t.subrange(e0 + 1, e1);
    let o2 = t.subrange(e1 + 1, e2);
    let o3 = t.subrange(e2 + 1, e3);
    let p = t.subrange(e3 + 1, e4);
    assert(t =~= o0 + seq!['.'] + o1 + seq!['.'] + o2 + seq!['.'] + o3 + seq![':'] + p);
}

/// The address text of any connection parameters whose user holds no `@`
/// is read back as the same user, host and port.
pub proof fn lemma_parse_address_round_trip(p: ConnectionParamsView)
    requires
        !p.user.contains('@'),
        p.host.len() == 4,
    ensures
        parse_address_spec(address_text(p)) == Ok::<ConnectionParamsView, ParseError>(p),
{
    let h = p.host;
    let o0 = decimal(h[0] as nat);
    let o1 = decimal(h[1] as nat);
    let o2 = decimal(h[2] as nat);
    let o3 = decimal(h[3] as nat);
    let pt = decimal(p.port as nat);
    lemma_octet_text(h[0]);
    lemma_octet_text(h[1]);
    lemma_octet_text(h[2]);
    lemma_octet_text(h[3]);
    lemma_port_text(p.port);
    let sa = socket_addr_text(h, p.port);
    assert(sa =~= o0 + seq!['.'] + o1 + seq!['.'] + o2 + seq!['.'] + o3 + seq![':'] + pt);
    lemma_parse_socket_addr_composed(o0, o1, o2, o3, pt);
    assert(seq![h[0], h[1], h[2], h[3]] =~= h);
    let s = address_text(p);
    let at = p.user.len() as int;
    assert(s[at] == '@');
    // no digit, dot or colon of the socket address is an `@`
    assert forall|k: int| 0 <= k < sa.len() implies sa[k] != '@' by {
        let e0 = o0.len() as int;
        let e1 = e0 + 1 + o1.len();
        let e2 = e1 + 1 + o2.len();
        let e3 = e2 + 1 + o3.len();
        if k < e0 {
            assert(sa[k] == o0[k]);
        } else if k == e0 {
        } else if k < e1 {
            assert(sa[k] == o1[k - e0 - 1]);
        } else if k == e1 {
        } else if k < e2 {
            assert(sa[k] == o2[k - e1 - 1]);
        } else if k == e2 {
        } else if k < e3 {
            assert(sa[k] == o3[k - e2 - 1]);
        } else if k == e3 {
        } else {
            assert(sa[k] == pt[k - e3 - 1]);
        }
    }
    assert(!sa.contains('@'));
    lemma_count_char_contains(p.user, '@');
    lemma_count_char_contains(sa, '@');
    lemma_count_char_single('@', '@');
    lemma_count_char_concat(p.user, seq!['@'], '@');
    lemma_count_char_concat(p.user + seq!['@'], sa, '@');
    assert(count_char(s, '@') == 1);
    let i = s.index_of('@');
    assert(0 <= i < s.len() && s[i] == '@');
    if i < at {
        assert(p.user[i] == '@');
    }
    if i > at {
        assert(sa[i - at - 1] == '@');
    }
    assert(i == at);
    assert(s.skip(at + 1) =~= sa);
    assert(s.take(at) =~= p.user);
}

/// Every address that is accepted holds the same user, host and port as
/// the address text of what it was read as: reading, writing and reading
/// again gives what the first reading gave.
pub proof fn lemma_parse_address_canonical(s: Seq<char>)
    requires
        parse_address_spec(s) is Ok,
    ensures
        parse_address_spec(address_text(parse_address_spec(s)->Ok_0)) == parse_address_spec(s),
        !parse_address_spec(s)->Ok_0.user.contains('@'),
        parse_address_spec(s)->Ok_0.host.len() == 4,
{
    let p = parse_address_spec(s)->Ok_0;
    let at = s.index_of('@');
    lemma_count_char_contains(s, '@');
    assert(0 <= at < s.len() && s[at] == '@');
    lemma_count_char_once(s, '@', at);
    if p.user.contains('@') {
        let k = choose|k: int| 0 <= k < p.user.len() && p.user[k] == '@';
        assert(s[k] == '@');
    }
    lemma_parse_address_round_trip(p);
}

/// Whether `c` is a decimal digit.
fn is_digit_char(c: char) -> (r: bool)
    ensures
        r == is_digit(c),
{
    let u: u32 = c as u32;
    48 <= u && u <= 57
}

/// The number that the digit `c` stands for.
fn digit_of(c: char) -> (r: u32)
    requires
        is_digit(c),
    ensures
        r == digit_value(c),
        r < 10,
{
    let u: u32 = c as u32;
    u - 48
}

/// Reads the run of digits of `v` that starts at `start`: where it ends,
/// and the number it denotes if that is at most 65535.
fn read_number(v: &Vec<char>, start: usize) -> (r: (usize, Option<u32>))
    requires
        start <= v.len(),
    ensures
        r.0 == digits_end(v@, start as int),
        start <= r.0 <= v.len(),
        all_digits(v@.subrange(start as int, r.0 as int)),
        match r.1 {
            Some(x) => x == decimal_value(v@.subrange(start as int, r.0 as int)) && x <= 65535,
            None => decimal_value(v@.subrange(start as int, r.0 as int)) > 65535,
        },
{
    let mut i: usize = start;
    let mut acc: u32 = 0;
    let mut over: bool = false;
    while i < v.len() && is_digit_char(v[i])
        invariant
            start <= i <= v.len(),
            digits_end(v@, i as int) == digits_end(v@, start as int),
            all_digits(v@.subrange(start as int, i as int)),
            !over ==> acc == decimal_value(v@.subrange(start as int, i as int)) && acc <= 65535,
            over ==> decimal_value(v@.subrange(start as int, i as int)) > 65535,
        decreases v.len() - i,
    {
        let d = digit_of(v[i]);
        proof {
            let old_run = v@.subrange(start as int, i as int);
            let new_run = v@.subrange(start as int, i + 1);
            assert(new_run.drop_last() =~= old_run);
            assert(new_run.last() == v@[i as int]);
            assert forall|k: int| 0 <= k < new_run.len() implies is_digit(#[trigger] new_run[k]) by {
                if k < old_run.len() {
                    assert(new_run[k] == old_run[k]);
                }
            }
        }
        if !over {
            let next: u32 = acc * 10 + d;
            if next > 65535 {
                over = true;
            } else {
                acc = next;
            }
        }
        i += 1;
    }
    if over {
        (i, None)
    } else {
        (i, Some(acc))
    }
}

/// The octet that the digits `v[start..end]` denote, if they are an octet
/// text; `value` is what `read_number` made of them.
fn octet_of(v: &Vec<char>, start: usize, end: usize, value: Option<u32>) -> (r: Option<u8>)
    requires
        start <= end <= v.len(),
        all_digits(v@.subrange(start as int, end as int)),
        match value {
            Some(x) => x == decimal_value(v@.subrange(start as int, end as int)),
            None => decimal_value(v@.subrange(start as int, end as int)) > 65535,
        },
    ensures
        r is Some <==> is_octet_text(v@.subrange(start as int, end as int)),
        r matches Some(x) ==> x == decimal_value(v@.subrange(start as int, end as int)),
{
    let len = end - start;
    if len < 1 || len > 3 {
        return None;
    }
    assert(v@.subrange(start as int, end as int)[0] == v@[start as int]);
    if len > 1 && v[start] == '0' {
        return None;
    }
    match value {
        Some(x) => {
            if x <= 255 {
                Some(x as u8)
            } else {
                None
            }
        },
        None => None,
    }
}

/// Host and port of the socket address `t`, if it is one.
pub fn read_socket_addr(t: &Vec<char>) -> (r: Option<([u8; 4], u16)>)
    ensures
        match r {
            Some((host, port)) => parse_socket_addr(t@) == Some((host@, port)),
            None => parse_socket_addr(t@) is None,
        },
{
    let n = t.len();
    let (e0, v0) = read_number(t, 0);
    if e0 >= n || t[e0] != '.' {
        return None;
    }
    let (e1, v1) = read_number(t, e0 + 1);
    if e1 >= n || t[e1] != '.' {
        return None;
    }
    let (e2, v2) = read_number(t, e1 + 1);
    if e2 >= n || t[e2] != '.' {
        return None;
    }
    let (e3, v3) = read_number(t, e2 + 1);
    if e3 >= n || t[e3] != ':' {
        return None;
    }
    let (e4, vp) = read_number(t, e3 + 1);
    if e4 != n || e4 == e3 + 1 {
        return None;
    }
    let a = match octet_of(t, 0, e0, v0) {
        Some(x) => x,
        None => { return None; },
    };
    let b = match octet_of(t, e0 + 1, e1, v1) {
        Some(x) => x,
        None => { return None; },
    };
    let c = match octet_of(t, e1 + 1, e2, v2) {
        Some(x) => x,
        None => { return None; },
    };
    let d = match octet_of(t, e2 + 1, e3, v3) {
        Some(x) => x,
        None => { return None; },
    };
    let port = match vp {
        Some(x) => x as u16,
        None => { return None; },
    };
    let host: [u8; 4] = [a, b, c, d];
    assert(host@ =~= seq![a, b, c, d]);
    Some((host, port))
}

/// Reads a connection address of the form `user@ip:port`.
pub fn parse_address(s: &str) -> (r: Result<ConnectionParams, ParseError>)
    ensures
        match r {
            Ok(p) => parse_address_spec(s@) == Ok::<ConnectionParamsView, ParseError>(p@),
            Err(e) => parse_address_spec(s@) == Err::<ConnectionParamsView, ParseError>(e),
        },
        count_char(s@, '@') != 1 ==> r matches Err(ParseError::BadFormat),
{
    let v = chars_of(s);
    if count_of(&v, '@') != 1 {
        return Err(ParseError::BadFormat);
    }
    proof {
        lemma_count_char_contains(s@, '@');
    }
    let at = match find_char(&v, '@') {
        Some(i) => i,
        None => { return Err(ParseError::BadFormat); },
    };
    proof {
        lemma_count_char_once(s@, '@', at as int);
        assert(s@.subrange(at + 1, v.len() as int) =~= s@.skip(at + 1));
        assert(s@.subrange(0, at as int) =~= s@.take(at as int));
    }
    let t = chars_of(s.substring_char(at + 1, v.len()));
    match read_socket_addr(&t) {
        Some((host, port)) => Ok(
            ConnectionParams { user: s.substring_char(0, at).to_owned(), host, port },
        ),
        None => Err(ParseError::BadAddress),
    }
}

impl ConnectionParams {
    /// The address text `user@ip:port` of these parameters.
    pub fn to_address(&self) -> (r: String)
        ensures
            r@ == address_text(self@),
    {
        let mut r = self.user.clone();
        r.append("@");
        push_decimal(&mut r, self.host[0] as u32);
        r.append(".");
        push_decimal(&mut r, self.host[1] as u32);
        r.append(".");
        push_decimal(&mut r, self.host[2] as u32);
        r.append(".");
        push_decimal(&mut r, self.host[3] as u32);
        r.append(":");
        push_decimal(&mut r, self.port as u32);
        proof {
            reveal_strlit("@");
            reveal_strlit(".");
            reveal_strlit(":");
            assert("@"@ =~= seq!['@']);
            assert("."@ =~= seq!['.']);
            assert(":"@ =~= seq![':']);
            assert(r@ =~= address_text(self@));
        }
        r
    }
}

} // verus!
