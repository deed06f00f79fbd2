//! IPv4 addresses of the mesh, and their text form.

use vstd::prelude::*;
use vstd::string::*;

verus! {

/// The decimal digit `digit` as a character.
pub open spec fn digit_char(digit: nat) -> char
    recommends
        digit < 10,
{
    if digit == 0 {
        '0'
    } else if digit == 1 {
        '1'
    } else if digit == 2 {
        '2'
    } else if digit == 3 {
        '3'
    } else if digit == 4 {
        '4'
    } else if digit == 5 {
        '5'
    } else if digit == 6 {
        '6'
    } else if digit == 7 {
        '7'
    } else if digit == 8 {
        '8'
    } else {
        '9'
    }
}

/// The decimal numeral of `value`, without leading zeros.
pub open spec fn decimal(value: nat) -> Seq<char>
    decreases value,
{
    if value < 10 {
        seq![digit_char(value)]
    } else {
        decimal(value / 10).push(digit_char(value % 10))
    }
}

/// The one-character text of a decimal digit.
fn digit_text(digit: u8) -> (text: &'static str)
    requires
        digit < 10,
    ensures
        text@ == seq![digit_char(digit as nat)],
{
    proof {
        reveal_strlit("0");
        reveal_strlit("1");
        reveal_strlit("2");
        reveal_strlit("3");
        reveal_strlit("4");
        reveal_strlit("5");
        reveal_strlit("6");
        reveal_strlit("7");
        reveal_strlit("8");
        reveal_strlit("9");
    }
    let text = match digit {
        0u8 => "0",
        1u8 => "1",
        2u8 => "2",
        3u8 => "3",
        4u8 => "4",
        5u8 => "5",
        6u8 => "6",
        7u8 => "7",
        8u8 => "8",
        _ => "9",
    };
    assert(text@ =~= seq![digit_char(digit as nat)]);
    text
}

/// Appends the decimal numeral of `value` to `text`.
pub fn push_decimal(text: &mut String, value: u8)
    ensures
        final(text)@ == old(text)@ + decimal(value as nat),
{
    proof {
        reveal_with_fuel(decimal, 3);
    }
    if value >= 100 {
        text.append(digit_text(value / 100));
        text.append(digit_text((value / 10) % 10));
        text.append(digit_text(value % 10));
        assert(text@ =~= old(text)@ + decimal(value as nat));
    } else if value >= 10 {
        text.append(digit_text(value / 10));
        text.append(digit_text(value % 10));
        assert(text@ =~= old(text)@ + decimal(value as nat));
    } else {
        text.append(digit_text(value));
    }
}

/// An IPv4 address, as its four octets.
#[derive(Clone, Copy, PartialEq, Eq, Debug, Structural)]
pub struct Ipv4Addr {
    pub a: u8,
    pub b: u8,
    pub c: u8,
    pub d: u8,
}

impl Ipv4Addr {
    /// The four octets, first to last.
    pub open spec fn octets_spec(self) -> Seq<u8> {
        seq![self.a, self.b, self.c, self.d]
    }

    /// The address as one number, first octet most significant.
    pub open spec fn value(self) -> nat {
        (self.a as nat) * 16777216 + (self.b as nat) * 65536 + (self.c as nat) * 256 + (self.d as nat)
    }

    /// Whether the address lies in a range set apart for private networks:
    /// `10.0.0.0/8`, `172.16.0.0/12` or `192.168.0.0/16`.
    pub open spec fn private(self) -> bool {
        ||| self.a == 10
        ||| (self.a == 172 && 16 <= self.b <= 31)
        ||| (self.a == 192 && self.b == 168)
    }

    /// The dotted decimal text of the address.
    pub open spec fn text(self) -> Seq<char> {
        decimal(self.a as nat) + seq!['.'] + decimal(self.b as nat) + seq!['.'] + decimal(self.c as nat)
            + seq!['.'] + decimal(self.d as nat)
    }

    /// Two addresses with the same number are the same address.
    pub proof fn lemma_value_injective(self, other: Ipv4Addr)
        requires
            self.value() == other.value(),
        ensures
            self == other,
    {
        let upper = |x: Ipv4Addr| (x.a as int) * 65536 + (x.b as int) * 256 + (x.c as int);
        assert(self.value() as int == upper(self) * 256 + self.d as int);
        assert(other.value() as int == upper(other) * 256 + other.d as int);
        assert(self.d == other.d && upper(self) == upper(other));
        let top = |x: Ipv4Addr| (x.a as int) * 256 + (x.b as int);
        assert(upper(self) == top(self) * 256 + self.c as int);
        assert(upper(other) == top(other) * 256 + other.c as int);
        assert(self.c == other.c && top(self) == top(other));
    }

    /// The address with the octets `a.b.c.d`.
    pub fn new(a: u8, b: u8, c: u8, d: u8) -> (addr: Self)
        ensures
            addr == (Ipv4Addr { a, b, c, d }),
    {
        Ipv4Addr { a, b, c, d }
    }

    /// The four octets, first to last.
    pub fn octets(&self) -> (octets: [u8; 4])
        ensures
            octets@ == self.octets_spec(),
    {
        let octets: [u8; 4] = [self.a, self.b, self.c, self.d];
        assert(octets@ =~= self.octets_spec());
        octets
    }

    /// The address as one number, first octet most significant.
    pub fn to_u32(&self) -> (value: u32)
        ensures
            value == self.value(),
    {
        (self.a as u32) * 16777216 + (self.b as u32) * 65536 + (self.c as u32) * 256 + (self.d as u32)
    }

    /// Whether the address lies in a range set apart for private networks.
    pub fn is_private(&self) -> (private: bool)
        ensures
            private == self.private(),
    {
        self.a == 10 || (self.a == 172 && 16 <= self.b && self.b <= 31) || (self.a == 192 && self.b == 168)
    }

    /// The dotted decimal text of the address.
    pub fn to_string(&self) -> (text: String)
        ensures
            text@ == self.text(),
    {
        proof {
            reveal_strlit(".");
            reveal_strlit("");
        }
        let mut text = String::from_str("");
        push_decimal(&mut text, self.a);
        text.append(".");
        push_decimal(&mut text, self.b);
        text.append(".");
        push_decimal(&mut text, self.c);
        text.append(".");
        push_decimal(&mut text, self.d);
        assert(text@ =~= self.text());
        text
    }
}

} // verus!
