//! Configuration resolution: the advertised domain and the listen port,
//! each taken from an environment-provided value with a fixed fallback.

use vstd::prelude::*;

verus! {

/// The port used when the environment provides none, or an unparseable value.
pub const DEFAULT_PORT: u16 = 8000;

/// The domain used when the environment provides none.
pub open spec fn default_domain() -> Seq<char> {
    "idp.example.com"@
}

/// The domain the proxy advertises: the environment value when it is set and
/// non-empty, the default otherwise.
pub open spec fn domain_of(env_value: Option<String>) -> Seq<char> {
    match env_value {
        Some(s) => if s@.len() > 0 {
            s@
        } else {
            default_domain()
        },
        None => default_domain(),
    }
}

/// Resolves the advertised domain from the raw environment value.
pub fn resolve_domain(env_value: Option<String>) -> (r: String)
    ensures
        r@ == domain_of(env_value),
{
    match env_value {
        Some(s) => {
            if !s.as_str().is_empty() {
                s
            } else {
                String::from_str("idp.example.com")
            }
        },
        None => String::from_str("idp.example.com"),
    }
}

/// A decimal ASCII digit.
pub open spec fn is_dec_digit(c: char) -> bool {
    48 <= c as int && c as int <= 57
}

/// The numeric value of a decimal digit.
pub open spec fn digit_val(c: char) -> int {
    c as int - 48
}

/// Every character of the sequence is a decimal digit.
pub open spec fn all_digits(s: Seq<char>) -> bool {
    forall|i: int| 0 <= i < s.len() ==> is_dec_digit(#[trigger] s[i])
}

/// The value of a sequence of decimal digits, most significant first.
pub open spec fn dec_val(s: Seq<char>) -> int
    decreases s.len(),
{
    if s.len() == 0 {
        0
    } else {
        dec_val(s.drop_last()) * 10 + digit_val(s.last())
    }
}

/// The digits of the value: what follows an optional leading `+` sign.
pub open spec fn dec_body(s: Seq<char>) -> Seq<char> {
    if s.len() > 0 && s[0] == '+' {
        s.subrange(1, s.len() as int)
    } else {
        s
    }
}

/// Which strings parse as a port: an optional `+` sign, then at least one
/// decimal digit, with a value of at most 65535.
pub open spec fn parses_as_u16(s: Seq<char>) -> bool {
    dec_body(s).len() > 0 && all_digits(dec_body(s)) && dec_val(dec_body(s)) <= 65535
}

/// The port value of a string that parses.
pub open spec fn parsed_u16(s: Seq<char>) -> u16 {
    dec_val(dec_body(s)) as u16
}

/// Parses a decimal sixteen-bit integer; `None` exactly on the strings that
/// do not parse.
pub fn parse_u16(s: &str) -> (r: Option<u16>)
    ensures
        parses_as_u16(s@) ==> r == Some(parsed_u16(s@)),
        !parses_as_u16(s@) ==> r is None,
{
    let n = s.unicode_len();
    let start: usize = if n > 0 && s.get_char(0) == '+' {
        1
    } else {
        0
    };
    let ghost body = dec_body(s@);
    proof {
        assert(body =~= s@.subrange(start as int, n as int));
    }
    if start == n {
        return None;
    }
    let mut i = start;
    let mut acc: u32 = 0;
    let mut too_big = false;
    while i < n
        invariant
            n == s@.len(),
            start <= i <= n,
            start <= 1,
            body == dec_body(s@),
            body =~= s@.subrange(start as int, n as int),
            all_digits(body.subrange(0, i - start)),
            !too_big ==> acc <= 65535 && acc == dec_val(body.subrange(0, i - start)),
            too_big ==> dec_val(body.subrange(0, i - start)) > 65535,
        decreases n - i,
    {
        let c = s.get_char(i);
        let u = c as u32;
        if u < 48 || u > 57 {
            proof {
                assert(body[i - start] == s@[i as int]);
                assert(!is_dec_digit(body[i - start]));
            }
            return None;
        }
        let ghost prefix = body.subrange(0, i - start);
        proof {
            assert(body.subrange(0, i + 1 - start) =~= prefix.push(body[i - start]));
            assert(prefix.push(body[i - start]).drop_last() =~= prefix);
            assert(dec_val(body.subrange(0, i + 1 - start)) == dec_val(prefix) * 10 + digit_val(
                body[i - start],
            ));
            assert(body[i - start] == s@[i as int]);
            assert forall|j: int| 0 <= j < i + 1 - start implies is_dec_digit(
                #[trigger] body.subrange(0, i + 1 - start)[j],
            ) by {
                assert(body.subrange(0, i + 1 - start)[j] == body[j]);
                if j < i - start {
                    assert(body.subrange(0, i - start)[j] == body[j]);
                }
            }
        }
        let d = u - 48;
        if !too_big {
            let next = acc * 10 + d;
            if next > 65535 {
                too_big = true;
            } else {
                acc = next;
            }
        }
        i = i + 1;
    }
    proof {
        assert(body.subrange(0, n - start) =~= body);
    }
    if too_big {
        None
    } else {
        Some(acc as u16)
    }
}

/// The listen port: the environment value when it parses as a sixteen-bit
/// integer, the default otherwise.
pub open spec fn port_of(env_value: Option<String>) -> u16 {
    match env_value {
        Some(s) => if parses_as_u16(s@) {
            parsed_u16(s@)
        } else {
            DEFAULT_PORT
        },
        None => DEFAULT_PORT,
    }
}

/// Resolves the listen port from the raw environment value.
pub fn resolve_port(env_value: Option<String>) -> (r: u16)
    ensures
        r == port_of(env_value),
{
    match env_value {
        Some(s) => match parse_u16(s.as_str()) {
            Some(p) => p,
            None => DEFAULT_PORT,
        },
        None => DEFAULT_PORT,
    }
}

} // verus!
