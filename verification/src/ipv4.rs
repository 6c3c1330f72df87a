//! IPv4 addresses as 32-bit integers, their dotted-decimal text, and subnets.
use vstd::prelude::*;
use crate::text::{dec, dec_chars, find_char, find_char_exec, from_chars, is_digit, push_chars, split_on, split_once, split_once_chars, to_chars};

verus! {

/// The integer of the four octets `a.b.c.d`.
pub open spec fn pack(a: nat, b: nat, c: nat, d: nat) -> nat {
    a * 16777216 + b * 65536 + c * 256 + d
}

/// The first octet of `ip`.
pub open spec fn oct0(ip: u32) -> nat {
    (ip as nat) / 16777216
}

/// The second octet of `ip`.
pub open spec fn oct1(ip: u32) -> nat {
    ((ip as nat) / 65536) % 256
}

/// The third octet of `ip`.
pub open spec fn oct2(ip: u32) -> nat {
    ((ip as nat) / 256) % 256
}

/// The fourth octet of `ip`.
pub open spec fn oct3(ip: u32) -> nat {
    (ip as nat) % 256
}

/// The dotted-decimal text of `ip`, as `Ipv4Addr`'s `Display` writes it.
pub open spec fn ipv4_text(ip: u32) -> Seq<char> {
    dec(oct0(ip)) + seq!['.'] + dec(oct1(ip)) + seq!['.'] + dec(oct2(ip)) + seq!['.'] + dec(
        oct3(ip),
    )
}

/// The value of a run of decimal digits.
pub open spec fn digits_value(p: Seq<char>) -> nat
    decreases p.len(),
{
    if p.len() == 0 {
        0
    } else {
        digits_value(p.drop_last()) * 10 + ((p.last() as u32) - ('0' as u32)) as nat
    }
}

/// One octet as `Ipv4Addr`'s parser accepts it: one to three digits, no leading zero
/// unless the octet is `0`, and a value below 256.
pub open spec fn valid_octet_text(p: Seq<char>) -> bool {
    &&& 1 <= p.len() <= 3
    &&& forall|i: int| 0 <= i < p.len() ==> is_digit(#[trigger] p[i])
    &&& (p.len() == 1 || p[0] != '0')
    &&& digits_value(p) < 256
}

/// The address that `Ipv4Addr`'s parser reads from `s`: four valid octets separated by
/// dots, nothing else.
pub open spec fn parse_ipv4_spec(s: Seq<char>) -> Option<u32> {
    match split_once(s, '.') {
        Some((a, r1)) => match split_once(r1, '.') {
            Some((b, r2)) => match split_once(r2, '.') {
                Some((c, d)) => {
                    if find_char(d, '.') is None && valid_octet_text(a) && valid_octet_text(b)
                        && valid_octet_text(c) && valid_octet_text(d) {
                        Some(
                            pack(
                                digits_value(a),
                                digits_value(b),
                                digits_value(c),
                                digits_value(d),
                            ) as u32,
                        )
                    } else {
                        None
                    }
                },
                None => None,
            },
            None => None,
        },
        None => None,
    }
}

/// The octet spelled by `p`, if `p` is a valid octet.
fn parse_octet(p: &[char]) -> (r: Option<u32>)
    ensures
        r matches Some(v) ==> valid_octet_text(p@) && v == digits_value(p@),
        r is None ==> !valid_octet_text(p@),
{
    if p.len() < 1 || p.len() > 3 {
        return None;
    }
    if p.len() > 1 && p[0] == '0' {
        return None;
    }
    let mut v: u32 = 0;
    let mut i: usize = 0;
    while i < p.len()
        invariant
            1 <= p@.len() <= 3,
            i <= p@.len(),
            forall|j: int| 0 <= j < i ==> is_digit(#[trigger] p@[j]),
            v == digits_value(p@.subrange(0, i as int)),
            v < 1000,
            i <= 2 ==> v < 100,
            i <= 1 ==> v < 10,
            i == 0 ==> v == 0,
        decreases p@.len() - i,
    {
        let c = p[i];
        if !('0' <= c && c <= '9') {
            return None;
        }
        proof {
            assert(p@.subrange(0, i + 1).drop_last() =~= p@.subrange(0, i as int));
        }
        v = v * 10 + (c as u32 - '0' as u32);
        i = i + 1;
    }
    assert(p@.subrange(0, p@.len() as int) =~= p@);
    if v >= 256 {
        return None;
    }
    Some(v)
}

/// The address written in dotted-decimal form in `s`, as `str::parse::<Ipv4Addr>` reads it.
pub fn parse_ipv4(s: &str) -> (r: Option<u32>)
    ensures
        r == parse_ipv4_spec(s@),
{
    let v = to_chars(s);
    let (a, r1) = match split_once_chars(&v, '.') {
        Some(x) => x,
        None => return None,
    };
    let (b, r2) = match split_once_chars(&r1, '.') {
        Some(x) => x,
        None => return None,
    };
    let (c, d) = match split_once_chars(&r2, '.') {
        Some(x) => x,
        None => return None,
    };
    if find_char_exec(&d, '.').is_some() {
        return None;
    }
    let oa = match parse_octet(&a) {
        Some(x) => x,
        None => return None,
    };
    let ob = match parse_octet(&b) {
        Some(x) => x,
        None => return None,
    };
    let oc = match parse_octet(&c) {
        Some(x) => x,
        None => return None,
    };
    let od = match parse_octet(&d) {
        Some(x) => x,
        None => return None,
    };
    Some(oa * 16777216 + ob * 65536 + oc * 256 + od)
}

/// The dotted-decimal text of `ip`.
pub fn ipv4_to_string(ip: u32) -> (s: String)
    ensures
        s@ == ipv4_text(ip),
{
    let a = ip / 16777216;
    let b = (ip / 65536) % 256;
    let c = (ip / 256) % 256;
    let d = ip % 256;
    let mut v = dec_chars(a as u64);
    v.push('.');
    let w = dec_chars(b as u64);
    push_chars(&mut v, &w);
    v.push('.');
    let w = dec_chars(c as u64);
    push_chars(&mut v, &w);
    v.push('.');
    let w = dec_chars(d as u64);
    push_chars(&mut v, &w);
    from_chars(&v)
}

/// Loopback (127.0.0.0/8), link-local (169.254.0.0/16) or unspecified (0.0.0.0).
pub open spec fn is_special_ip(ip: u32) -> bool {
    oct0(ip) == 127 || (oct0(ip) == 169 && oct1(ip) == 254) || ip == 0
}

/// Whether `ip` may be probed: not loopback, not link-local, not unspecified.
pub fn is_valid_probe_candidate_ip(ip: u32) -> (b: bool)
    ensures
        b == !is_special_ip(ip),
{
    let a = ip / 16777216;
    let b = (ip / 65536) % 256;
    !(a == 127 || (a == 169 && b == 254) || ip == 0)
}

/// `2` to the power `k`.
pub open spec fn pow2(k: nat) -> nat
    decreases k,
{
    if k == 0 {
        1
    } else {
        2 * pow2((k - 1) as nat)
    }
}

/// The number of addresses in a network with the given prefix length.
pub open spec fn block_size(prefix_len: u8) -> nat {
    pow2((32 - prefix_len) as nat)
}

proof fn lemma_pow2_bounds(k: nat)
    requires
        k <= 32,
    ensures
        1 <= pow2(k) <= pow2(32),
        pow2(32) == 0x1_0000_0000,
    decreases k,
{
    reveal_with_fuel(pow2, 33);
    if k > 0 {
        lemma_pow2_bounds((k - 1) as nat);
    }
}

fn block_size_exec(prefix_len: u8) -> (r: u64)
    requires
        prefix_len <= 32,
    ensures
        r == block_size(prefix_len),
        1 <= r <= 0x1_0000_0000,
{
    let k = 32 - prefix_len;
    let mut r: u64 = 1;
    let mut i: u8 = 0;
    proof {
        lemma_pow2_bounds(k as nat);
    }
    while i < k
        invariant
            i <= k <= 32,
            r == pow2(i as nat),
            pow2(k as nat) <= 0x1_0000_0000,
        decreases k - i,
    {
        proof {
            lemma_pow2_mono(i as nat + 1, k as nat);
        }
        r = r * 2;
        i = i + 1;
    }
    r
}

proof fn lemma_pow2_add(a: nat, b: nat)
    ensures
        pow2(a + b) == pow2(a) * pow2(b),
    decreases a,
{
    if a > 0 {
        lemma_pow2_add((a - 1) as nat, b);
        assert(pow2(a + b) == 2 * pow2((a - 1 + b) as nat));
        assert(2 * (pow2((a - 1) as nat) * pow2(b)) == (2 * pow2((a - 1) as nat)) * pow2(b))
            by (nonlinear_arith);
        assert(pow2(a) == 2 * pow2((a - 1) as nat));
    } else {
        assert(pow2(a) == 1);
        assert(a + b == b);
    }
}

/// For `a` below `s * m`: rounding `a` down to a multiple of `s` and adding `s` stays
/// within `s * m`.
proof fn lemma_block_fits(a: int, s: int, m: int)
    requires
        0 <= a < s * m,
        s > 0,
        m > 0,
    ensures
        0 <= a % s <= a,
        a - a % s + s <= s * m,
{
    vstd::arithmetic::div_mod::lemma_fundamental_div_mod(a, s);
    vstd::arithmetic::div_mod::lemma_mod_bound(a, s);
    let q = a / s;
    let r = a % s;
    assert(q >= 0) by (nonlinear_arith)
        requires
            a == s * q + r,
            0 <= r < s,
            a >= 0,
            s > 0,
    ;
    assert(q < m) by (nonlinear_arith)
        requires
            a == s * q + r,
            0 <= r,
            a < s * m,
            s > 0,
    ;
    assert(s * q + s <= s * m) by (nonlinear_arith)
        requires
            q < m,
            s > 0,
    ;
    assert(r <= a) by (nonlinear_arith)
        requires
            a == s * q + r,
            q >= 0,
            s > 0,
    ;
}

proof fn lemma_pow2_mono(a: nat, b: nat)
    requires
        a <= b,
    ensures
        pow2(a) <= pow2(b),
    decreases b,
{
    if a < b {
        lemma_pow2_mono(a, (b - 1) as nat);
    }
}

/// An IPv4 network: an address and a prefix length of at most 32.
#[derive(Clone, Copy, Debug, PartialEq, Eq)]
pub struct Ipv4Subnet {
    addr: u32,
    prefix_len: u8,
}

impl Ipv4Subnet {
    #[verifier::type_invariant]
    spec fn prefix_ok(self) -> bool {
        self.prefix_len <= 32
    }

    /// The address the network was written with.
    pub closed spec fn spec_addr(self) -> u32 {
        self.addr
    }

    /// The prefix length.
    pub closed spec fn spec_prefix_len(self) -> u8 {
        self.prefix_len
    }

    /// The first address of the network.
    pub open spec fn spec_network(self) -> int {
        (self.spec_addr() as int) - (self.spec_addr() as int) % (block_size(self.spec_prefix_len()) as int)
    }

    /// The last address of the network.
    pub open spec fn spec_broadcast(self) -> int {
        self.spec_network() + block_size(self.spec_prefix_len()) - 1
    }

    /// The network of `addr` with `prefix_len`, when the length is at most 32.
    pub fn new(addr: u32, prefix_len: u8) -> (r: Option<Ipv4Subnet>)
        ensures
            prefix_len <= 32 <==> r is Some,
            r matches Some(n) ==> n.spec_addr() == addr && n.spec_prefix_len() == prefix_len,
    {
        if prefix_len > 32 {
            None
        } else {
            Some(Ipv4Subnet { addr, prefix_len })
        }
    }

    /// The prefix length.
    pub fn prefix_len(&self) -> (r: u8)
        ensures
            r == self.spec_prefix_len(),
            r <= 32,
    {
        proof {
            use_type_invariant(self);
        }
        self.prefix_len
    }

    /// The address the network was written with.
    pub fn addr(&self) -> (r: u32)
        ensures
            r == self.spec_addr(),
    {
        self.addr
    }

    /// The first address of the network (the address with its host bits cleared).
    pub fn network(&self) -> (r: u32)
        ensures
            r == self.spec_network(),
    {
        proof {
            use_type_invariant(self);
        }
        let size = block_size_exec(self.prefix_len);
        let a = self.addr as u64;
        proof {
            let k = (32 - self.prefix_len) as nat;
            lemma_pow2_add(k, (32 - k) as nat);
            lemma_pow2_bounds(k);
            lemma_pow2_bounds((32 - k) as nat);
            lemma_block_fits(a as int, size as int, pow2((32 - k) as nat) as int);
        }
        (a - a % size) as u32
    }

    /// The last address of the network (the address with its host bits set).
    pub fn broadcast(&self) -> (r: u32)
        ensures
            r == self.spec_broadcast(),
    {
        proof {
            use_type_invariant(self);
            lemma_pow2_bounds((32 - self.prefix_len) as nat);
        }
        let size = block_size_exec(self.prefix_len);
        let a = self.addr as u64;
        proof {
            let k = (32 - self.prefix_len) as nat;
            lemma_pow2_add(k, (32 - k) as nat);
            lemma_pow2_bounds(k);
            lemma_pow2_bounds((32 - k) as nat);
            lemma_block_fits(a as int, size as int, pow2((32 - k) as nat) as int);
        }
        let n = a - a % size;
        (n + size - 1) as u32
    }

    /// Whether `ip` lies between the network and broadcast addresses.
    pub fn contains(&self, ip: u32) -> (b: bool)
        ensures
            b == (self.spec_network() <= ip && ip <= self.spec_broadcast()),
    {
        self.network() <= ip && ip <= self.broadcast()
    }
}

/// A decimal number as `ipnet`'s parser reads one: one to `max` digits, leading zeros
/// allowed, with a value below `upto`.
pub open spec fn ipnet_number(p: Seq<char>, max: nat, upto: nat) -> bool {
    &&& 1 <= p.len() <= max
    &&& forall|i: int| 0 <= i < p.len() ==> is_digit(#[trigger] p[i])
    &&& digits_value(p) < upto
}

/// The address and prefix length that `ipnet` reads from `s` with `Ipv4Net::from_str`: four
/// numbers of up to three digits below 256 joined by dots, a slash, and a number of up to two
/// digits below 33, with nothing before or after.
pub open spec fn ipnet_v4_parse(s: Seq<char>) -> Option<(u32, u8)> {
    let halves = split_on(s, '/');
    let q = split_on(halves[0], '.');
    if halves.len() == 2 && q.len() == 4 && ipnet_number(q[0], 3, 256) && ipnet_number(q[1], 3, 256)
        && ipnet_number(q[2], 3, 256) && ipnet_number(q[3], 3, 256) && ipnet_number(halves[1], 2, 33) {
        Some(
            (
                pack(digits_value(q[0]), digits_value(q[1]), digits_value(q[2]), digits_value(q[3])) as u32,
                digits_value(halves[1]) as u8,
            ),
        )
    } else {
        None
    }
}

/// Calls `<ipnet::Ipv4Net as FromStr>::from_str` and hands back the address and prefix
/// length it read, as `ipnet_v4_parse` states its grammar (its parser reads the text byte by
/// byte, so a character outside ASCII fails as any other non-digit does); a prefix length
/// above 32 is never returned.
#[verifier::external_body]
fn ipnet_parse_v4(s: &str) -> (r: Option<(u32, u8)>)
    ensures
        r == ipnet_v4_parse(s@),
        r matches Some((_, p)) ==> p <= 32,
{
    match s.parse::<ipnet::Ipv4Net>() {
        Ok(net) => Some((u32::from(net.addr()), net.prefix_len())),
        Err(_) => None,
    }
}

/// The network written as `a.b.c.d/len` in `s`, as `ipnet` reads it.
pub fn parse_ipv4_subnet(s: &str) -> (r: Option<Ipv4Subnet>)
    ensures
        match ipnet_v4_parse(s@) {
            Some((a, p)) => r matches Some(n) && n.spec_addr() == a && n.spec_prefix_len() == p,
            None => r is None,
        },
{
    match ipnet_parse_v4(s) {
        Some((a, p)) => Ipv4Subnet::new(a, p),
        None => None,
    }
}

} // verus!
