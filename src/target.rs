use vstd::prelude::*;

use crate::error::ProxyError;

verus! {

/// ASCII code of `':'`, the separator between host and port.
pub const COLON: u8 = 58;

/// ASCII code of `'0'`.
pub const DIGIT_ZERO: u8 = 48;

/// ASCII code of `'9'`.
pub const DIGIT_NINE: u8 = 57;

/// Largest TCP port number.
pub const MAX_PORT: u32 = 65535;

pub open spec fn is_digit(b: u8) -> bool {
    DIGIT_ZERO <= b && b <= DIGIT_NINE
}

/// Value of a string of decimal digits, most significant first.
pub open spec fn digits_value(s: Seq<u8>) -> nat
    decreases s.len(),
{
    if s.len() == 0 {
        0
    } else {
        digits_value(s.drop_last()) * 10 + (s.last() - DIGIT_ZERO) as nat
    }
}

/// A port: one or more decimal digits whose value fits a TCP port.
pub open spec fn is_port(s: Seq<u8>) -> bool {
    &&& s.len() > 0
    &&& forall|i: int| 0 <= i < s.len() ==> is_digit(#[trigger] s[i])
    &&& digits_value(s) <= MAX_PORT
}

/// Index of the last `':'` of `s`, or -1 when there is none.
pub open spec fn last_colon(s: Seq<u8>) -> int
    decreases s.len(),
{
    if s.len() == 0 {
        -1
    } else if s.last() == COLON {
        s.len() - 1
    } else {
        last_colon(s.drop_last())
    }
}

/// What stands before the last colon.
pub open spec fn host_part(s: Seq<u8>) -> Seq<u8> {
    s.subrange(0, last_colon(s))
}

/// What stands after the last colon.
pub open spec fn port_part(s: Seq<u8>) -> Seq<u8> {
    s.subrange(last_colon(s) + 1, s.len() as int)
}

/// Authority form `host:port`: a non-empty host, a colon, and a port.
/// A bracketed IPv6 host keeps its own colons, since the port follows the last one.
pub open spec fn is_authority(s: Seq<u8>) -> bool {
    &&& last_colon(s) > 0
    &&& is_port(port_part(s))
}

/// A validated tunnel target: a host and a port, taken apart from `host:port`.
pub struct TargetAddress {
    pub host: Vec<u8>,
    pub port: u16,
}

proof fn lemma_last_colon_suffix(s: Seq<u8>, k: int)
    requires
        -1 <= k < s.len(),
        k >= 0 ==> s[k] == COLON,
        forall|j: int| k < j < s.len() ==> s[j] != COLON,
    ensures
        last_colon(s) == k,
    decreases s.len(),
{
    if s.len() > 0 && s.last() != COLON {
        assert(s.drop_last().len() == s.len() - 1);
        assert forall|j: int| k < j < s.drop_last().len() implies s.drop_last()[j] != COLON by {
            assert(s.drop_last()[j] == s[j]);
        }
        if k >= 0 {
            assert(s.drop_last()[k] == s[k]);
        }
        lemma_last_colon_suffix(s.drop_last(), k);
    }
}

proof fn lemma_digits_prefix_step(s: Seq<u8>, i: int)
    requires
        0 <= i < s.len(),
    ensures
        digits_value(s.subrange(0, i + 1)) == digits_value(s.subrange(0, i)) * 10 + (s[i]
            - DIGIT_ZERO) as nat,
{
    let p = s.subrange(0, i + 1);
    assert(p.drop_last() =~= s.subrange(0, i));
}

proof fn lemma_digits_monotone(s: Seq<u8>, i: int)
    requires
        0 <= i <= s.len(),
        forall|j: int| 0 <= j < s.len() ==> is_digit(#[trigger] s[j]),
    ensures
        digits_value(s.subrange(0, i)) <= digits_value(s),
    decreases s.len() - i,
{
    if i < s.len() {
        lemma_digits_prefix_step(s, i);
        lemma_digits_monotone(s, i + 1);
    } else {
        assert(s.subrange(0, i) =~= s);
    }
}

/// A target without a port, be it a bare host or a host and a colon with nothing
/// after it, is not in authority form, so a CONNECT to it is refused.
pub proof fn lemma_portless_target_rejected(host: Seq<u8>)
    requires
        forall|j: int| 0 <= j < host.len() ==> host[j] != COLON,
    ensures
        !is_authority(host),
        !is_authority(host.push(COLON)),
{
    lemma_last_colon_suffix(host, -1);
    let h = host.push(COLON);
    assert forall|j: int| h.len() - 1 < j < h.len() implies h[j] != COLON by {}
    lemma_last_colon_suffix(h, h.len() - 1);
    assert(port_part(h).len() == 0);
}

/// Reads a port out of `digits`; `None` unless `digits` is a port.
fn parse_port(digits: &[u8], start: usize) -> (r: Option<u16>)
    requires
        start <= digits@.len(),
    ensures
        r is Some <==> is_port(digits@.subrange(start as int, digits@.len() as int)),
        r matches Some(p) ==> p as nat == digits_value(
            digits@.subrange(start as int, digits@.len() as int),
        ),
{
    let ghost s = digits@.subrange(start as int, digits@.len() as int);
    if start == digits.len() {
        return None;
    }
    let mut value: u32 = 0;
    let mut i: usize = start;
    while i < digits.len()
        invariant
            start <= i <= digits@.len(),
            s == digits@.subrange(start as int, digits@.len() as int),
            forall|j: int| 0 <= j < i - start ==> is_digit(#[trigger] s[j]),
            value as nat == digits_value(s.subrange(0, i - start)),
            value <= MAX_PORT,
        decreases digits@.len() - i,
    {
        let b = digits[i];
        proof {
            assert(s[i - start] == b);
            lemma_digits_prefix_step(s, i - start);
        }
        if b < DIGIT_ZERO || b > DIGIT_NINE {
            return None;
        }
        let next = value * 10 + (b - DIGIT_ZERO) as u32;
        if next > MAX_PORT {
            proof {
                if is_port(s) {
                    lemma_digits_monotone(s, i - start + 1);
                }
            }
            return None;
        }
        value = next;
        i = i + 1;
    }
    proof {
        assert(s.subrange(0, i - start) =~= s);
    }
    Some(value as u16)
}

/// Takes a tunnel target out of the authority text of a CONNECT request.
/// The port is required: a target without one is refused, never defaulted.
pub fn resolve_target(authority: &[u8]) -> (r: Result<TargetAddress, ProxyError>)
    ensures
        r is Ok <==> is_authority(authority@),
        r matches Ok(t) ==> t.host@ == host_part(authority@) && t.port as nat == digits_value(
            port_part(authority@),
        ),
        r matches Err(e) ==> e == ProxyError::InvalidTarget,
{
    let mut k: usize = authority.len();
    while k > 0 && authority[k - 1] != COLON
        invariant
            k <= authority@.len(),
            forall|j: int| k <= j < authority@.len() ==> authority@[j] != COLON,
        decreases k,
    {
        k = k - 1;
    }
    proof {
        lemma_last_colon_suffix(authority@, k - 1);
    }
    if k <= 1 {
        return Err(ProxyError::InvalidTarget);
    }
    let port = match parse_port(authority, k) {
        Some(p) => p,
        None => {
            return Err(ProxyError::InvalidTarget);
        },
    };
    let mut host: Vec<u8> = Vec::new();
    let mut i: usize = 0;
    while i < k - 1
        invariant
            i <= k - 1,
            k <= authority@.len(),
            host@ == authority@.subrange(0, i as int),
        decreases k - 1 - i,
    {
        host.push(authority[i]);
        proof {
            assert(host@ =~= authority@.subrange(0, i + 1));
        }
        i = i + 1;
    }
    Ok(TargetAddress { host, port })
}

} // verus!
