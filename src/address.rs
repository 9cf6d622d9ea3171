use vstd::prelude::*;
use crate::resolve::{decimal_value, is_decimal, is_digit, lemma_decimal_prefix};

verus! {

/// The port used where an address names none.
pub const DEFAULT_PORT: u16 = 25565;

/// A server to connect to: a host name and a port.
#[derive(Debug, PartialEq, Eq)]
pub struct ServerAddress {
    pub host: String,
    pub port: u16,
}

/// Why the port of an address could not be read.
#[derive(Debug, Clone, Copy, PartialEq, Eq, Structural)]
pub enum AddressError {
    /// Nothing follows the last colon.
    Empty,
    /// The port holds a character that is not a decimal digit.
    InvalidDigit,
    /// The port is larger than 65535.
    PosOverflow,
}

/// The index of the last occurrence of `c` in `s`, or -1.
pub open spec fn last_index_of(s: Seq<char>, c: char) -> int
    decreases s.len(),
{
    if s.len() == 0 {
        -1
    } else if s.last() == c {
        s.len() - 1
    } else {
        last_index_of(s.drop_last(), c)
    }
}

/// The digits of a port: what follows an optional leading `+`.
pub open spec fn port_digits(t: Seq<char>) -> Seq<char> {
    if t.len() > 0 && t[0] == '+' {
        t.skip(1)
    } else {
        t
    }
}

/// A port number read as `u16`'s `FromStr` reads it: an optional `+`, then
/// one or more decimal digits, of value at most 65535.
pub open spec fn port_of(t: Seq<char>) -> Result<u16, AddressError> {
    if t.len() == 0 {
        Err(AddressError::Empty)
    } else if !is_decimal(port_digits(t)) {
        Err(AddressError::InvalidDigit)
    } else if decimal_value(port_digits(t)) > u16::MAX {
        Err(AddressError::PosOverflow)
    } else {
        Ok(decimal_value(port_digits(t)) as u16)
    }
}

/// The decimal text of `n`, without leading zeros.
pub open spec fn decimal_text(n: nat) -> Seq<char>
    decreases n,
{
    if n < 10 {
        seq![digit_char(n)]
    } else {
        decimal_text(n / 10).push(digit_char(n % 10))
    }
}

pub open spec fn digit_char(d: nat) -> char {
    ('0' as nat + d) as char
}

pub proof fn lemma_last_index_of(s: Seq<char>, c: char)
    ensures
        -1 <= last_index_of(s, c) < s.len(),
        last_index_of(s, c) >= 0 ==> s[last_index_of(s, c)] == c,
        forall|j: int| last_index_of(s, c) < j < s.len() ==> s[j] != c,
    decreases s.len(),
{
    if s.len() > 0 {
        lemma_last_index_of(s.drop_last(), c);
        assert forall|j: int| last_index_of(s, c) < j < s.len() implies s[j] != c by {
            if j < s.len() - 1 {
                assert(s.drop_last()[j] == s[j]);
            }
        }
    }
}

/// Reads a port number.
fn parse_port(t: &str) -> (r: Result<u16, AddressError>)
    ensures
        r == port_of(t@),
{
    let len = t.unicode_len();
    if len == 0 {
        return Err(AddressError::Empty);
    }
    let start: usize = if t.get_char(0) == '+' {
        1
    } else {
        0
    };
    let ghost digits = port_digits(t@);
    assert(digits =~= t@.skip(start as int));
    if start == len {
        assert(digits.len() == 0);
        return Err(AddressError::InvalidDigit);
    }
    let mut acc: u32 = 0;
    let mut overflow = false;
    let mut i: usize = start;
    while i < len
        invariant
            len == t@.len(),
            digits == t@.skip(start as int),
            digits == port_digits(t@),
            start <= i <= len,
            start < len,
            forall|j: int| 0 <= j < i - start ==> is_digit(#[trigger] digits[j]),
            !overflow ==> acc == decimal_value(digits.take(i - start)) && acc <= u16::MAX,
            overflow ==> decimal_value(digits.take(i - start)) > u16::MAX,
        decreases len - i,
    {
        let c = t.get_char(i);
        assert(c == digits[i - start]);
        if !('0' <= c && c <= '9') {
            assert(!is_digit(digits[i - start]));
            assert(!is_decimal(digits));
            return Err(AddressError::InvalidDigit);
        }
        let d = (c as u32 - '0' as u32);
        assert(digits.take(i - start + 1).drop_last() =~= digits.take(i - start));
        if !overflow {
            acc = acc * 10 + d;
            if acc > 65535 {
                overflow = true;
            }
        } else {
            proof {
                lemma_decimal_prefix(digits.take(i - start + 1), i - start);
                assert(digits.take(i - start + 1).take(i - start) =~= digits.take(i - start));
            }
        }
        i = i + 1;
    }
    assert(digits.take(len - start) =~= digits);
    assert(is_decimal(digits));
    if overflow {
        Err(AddressError::PosOverflow)
    } else {
        Ok(acc as u16)
    }
}

/// The text of one decimal digit.
fn digit_str(d: u32) -> (r: &'static str)
    requires
        d < 10,
    ensures
        r@ == seq![digit_char(d as nat)],
{
    proof {
        reveal_strlit("0");
        reveal_strlit("1");
        reveal_strlit("2");
        reveal_strlit("3");
        reveal_strlit("4");
        reveal_strlit("5");
        reveal_strlit("6");
        reveal_strlit("7");
        reveal_strlit("8");
        reveal_strlit("9");
    }
    if d == 0 {
        assert("0"@ =~= seq![digit_char(0)]);
        "0"
    } else if d == 1 {
        assert("1"@ =~= seq![digit_char(1)]);
        "1"
    } else if d == 2 {
        assert("2"@ =~= seq![digit_char(2)]);
        "2"
    } else if d == 3 {
        assert("3"@ =~= seq![digit_char(3)]);
        "3"
    } else if d == 4 {
        assert("4"@ =~= seq![digit_char(4)]);
        "4"
    } else if d == 5 {
        assert("5"@ =~= seq![digit_char(5)]);
        "5"
    } else if d == 6 {
        assert("6"@ =~= seq![digit_char(6)]);
        "6"
    } else if d == 7 {
        assert("7"@ =~= seq![digit_char(7)]);
        "7"
    } else if d == 8 {
        assert("8"@ =~= seq![digit_char(8)]);
        "8"
    } else {
        assert("9"@ =~= seq![digit_char(9)]);
        "9"
    }
}

/// Appends the decimal text of `n` to `out`.
fn push_decimal(n: u32, out: &mut String)
    ensures
        final(out)@ == old(out)@ + decimal_text(n as nat),
    decreases n,
{
    if n >= 10 {
        push_decimal(n / 10, out);
        out.append(digit_str(n % 10));
        assert(out@ =~= old(out)@ + decimal_text(n as nat));
    } else {
        out.append(digit_str(n));
    }
}

impl ServerAddress {
    /// Reads `host:port`, splitting at the last colon; an address without a
    /// colon is a host name alone, on the default port.
    pub fn from_str(s: &str) -> (r: Result<ServerAddress, AddressError>)
        ensures
            last_index_of(s@, ':') < 0 ==> r == Ok::<_, AddressError>(
                ServerAddress { host: r->Ok_0.host, port: DEFAULT_PORT },
            ) && r->Ok_0.host@ == s@,
            last_index_of(s@, ':') >= 0 ==> match port_of(s@.skip(last_index_of(s@, ':') + 1)) {
                Ok(port) => r is Ok && r->Ok_0.port == port && r->Ok_0.host@ == s@.take(
                    last_index_of(s@, ':'),
                ),
                Err(e) => r == Err::<ServerAddress, _>(e),
            },
    {
        let len = s.unicode_len();
        let mut i: usize = len;
        proof {
            lemma_last_index_of(s@, ':');
        }
        while i > 0
            invariant
                len == s@.len(),
                i <= len,
                forall|j: int| i <= j < len ==> s@[j] != ':',
                last_index_of(s@, ':') < i,
                -1 <= last_index_of(s@, ':'),
                last_index_of(s@, ':') >= 0 ==> s@[last_index_of(s@, ':')] == ':',
            decreases i,
        {
            if s.get_char(i - 1) == ':' {
                let host = s.substring_char(0, i - 1).to_owned();
                let port = parse_port(s.substring_char(i, len));
                proof {
                    lemma_last_index_of(s@, ':');
                }
                assert(last_index_of(s@, ':') == i - 1);
                assert(s@.subrange(i as int, len as int) =~= s@.skip(i as int));
                return match port {
                    Ok(port) => Ok(ServerAddress { host, port }),
                    Err(e) => Err(e),
                };
            }
            i = i - 1;
        }
        assert(last_index_of(s@, ':') < 0);
        Ok(ServerAddress { host: s.to_owned(), port: DEFAULT_PORT })
    }

    /// The address as `host:port`.
    pub fn to_string(&self) -> (r: String)
        ensures
            r@ == self.host@ + ":"@ + decimal_text(self.port as nat),
    {
        let mut out = self.host.clone();
        out.append(":");
        push_decimal(self.port as u32, &mut out);
        out
    }
}

} // verus!
