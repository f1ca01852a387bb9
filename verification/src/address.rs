//! The 160-bit address of an account, and its hexadecimal form.
use vstd::prelude::*;

verus! {

broadcast use vstd::array::group_array_axioms;

/// A 160-bit address, stored as its bytes.
#[derive(Clone, Copy, PartialEq, Eq, Debug, Default)]
pub struct Address(pub [u8; 20]);

/// The value of a hexadecimal digit, upper or lower case.
pub open spec fn hex_value(c: char) -> Option<u8> {
    if '0' <= c && c <= '9' {
        Some((c as u32 - '0' as u32) as u8)
    } else if 'a' <= c && c <= 'f' {
        Some((c as u32 - 'a' as u32 + 10) as u8)
    } else if 'A' <= c && c <= 'F' {
        Some((c as u32 - 'A' as u32 + 10) as u8)
    } else {
        None
    }
}

/// The bytes that a string of hexadecimal digits stands for: two digits per byte,
/// the high digit first.
pub open spec fn hex_bytes(s: Seq<char>) -> Seq<u8> {
    Seq::new(
        s.len() / 2,
        |i: int| (hex_value(s[2 * i])->0 * 16 + hex_value(s[2 * i + 1])->0) as u8,
    )
}

/// The address that `s` spells out: exactly 40 hexadecimal digits.
pub open spec fn spec_parse_address(s: Seq<char>) -> Option<Seq<u8>> {
    if s.len() == 40 && forall|i: int| 0 <= i < 40 ==> (#[trigger] hex_value(s[i])) is Some {
        Some(hex_bytes(s))
    } else {
        None
    }
}

/// The address whose bytes are `b`.
pub open spec fn address_with_bytes(b: Seq<u8>) -> Address {
    choose|a: Address| a.0@ == b
}

pub proof fn lemma_address_with_bytes(a: Address)
    ensures
        address_with_bytes(a.0@) == a,
{
    let c = address_with_bytes(a.0@);
    assert(c.0@ == a.0@);
    assert(c.0 =~= a.0);
}

fn hex_digit(c: char) -> (r: Option<u8>)
    ensures
        r == hex_value(c),
{
    if '0' <= c && c <= '9' {
        Some((c as u32 - '0' as u32) as u8)
    } else if 'a' <= c && c <= 'f' {
        Some((c as u32 - 'a' as u32 + 10) as u8)
    } else if 'A' <= c && c <= 'F' {
        Some((c as u32 - 'A' as u32 + 10) as u8)
    } else {
        None
    }
}

impl Address {
    /// Parses an address from its 40 hexadecimal digits.
    pub fn parse(s: &[char]) -> (r: Option<Address>)
        ensures
            r is Some <==> spec_parse_address(s@) is Some,
            r matches Some(a) ==> a.0@ == spec_parse_address(s@)->0,
            r matches Some(a) ==> a == address_with_bytes(spec_parse_address(s@)->0),
    {
        if s.len() != 40 {
            return None;
        }
        let mut bytes: [u8; 20] = [0u8; 20];
        let mut i: usize = 0;
        while i < 20
            invariant
                s@.len() == 40,
                0 <= i <= 20,
                forall|k: int| 0 <= k < 2 * i ==> (#[trigger] hex_value(s@[k])) is Some,
                forall|k: int| 0 <= k < i ==> bytes@[k] == hex_bytes(s@)[k],
            decreases 20 - i,
        {
            let hi = hex_digit(s[2 * i]);
            let lo = hex_digit(s[2 * i + 1]);
            match (hi, lo) {
                (Some(h), Some(l)) => {
                    assert(h < 16 && l < 16);
                    bytes[i] = h * 16 + l;
                },
                _ => {
                    proof {
                        assert(!(hex_value(s@[2 * i as int]) is Some && hex_value(s@[2 * i + 1]) is Some));
                    }
                    return None;
                },
            }
            i = i + 1;
        }
        assert(bytes@ =~= hex_bytes(s@));
        proof {
            lemma_address_with_bytes(Address(bytes));
        }
        Some(Address(bytes))
    }

    /// Whether two addresses are the same.
    pub fn same(&self, other: &Address) -> (r: bool)
        ensures
            r == (*self == *other),
    {
        let mut i: usize = 0;
        while i < 20
            invariant
                0 <= i <= 20,
                forall|k: int| 0 <= k < i ==> self.0@[k] == other.0@[k],
            decreases 20 - i,
        {
            if self.0[i] != other.0[i] {
                return false;
            }
            i = i + 1;
        }
        assert(self.0 =~= other.0);
        true
    }
}

/// The lower-case hexadecimal digit for a value below 16.
pub open spec fn hex_digit_char(v: u8) -> char {
    if v < 10 {
        (v + 48) as char
    } else {
        (v - 10 + 97) as char
    }
}

/// The lower-case hexadecimal form of bytes: two digits per byte, the high digit first.
pub open spec fn hex_chars(b: Seq<u8>) -> Seq<char> {
    Seq::new(
        2 * b.len(),
        |i: int|
            if i % 2 == 0 {
                hex_digit_char(b[i / 2] / 16)
            } else {
                hex_digit_char(b[i / 2] % 16)
            },
    )
}

fn digit_char(v: u8) -> (c: char)
    requires
        v < 16,
    ensures
        c == hex_digit_char(v),
{
    if v < 10 {
        (v + 48) as char
    } else {
        (v - 10 + 97) as char
    }
}

proof fn lemma_hex_digit_round_trip(v: u8)
    requires
        v < 16,
    ensures
        hex_value(hex_digit_char(v)) == Some(v),
{
}

/// The hexadecimal form of an address parses back into that address.
pub proof fn law_parse_path_repr(a: Address)
    ensures
        spec_parse_address(hex_chars(a.0@)) == Some(a.0@),
{
    let s = hex_chars(a.0@);
    assert forall|i: int| 0 <= i < 40 implies (#[trigger] hex_value(s[i])) is Some by {
        if i % 2 == 0 {
            lemma_hex_digit_round_trip(a.0@[i / 2] / 16);
        } else {
            lemma_hex_digit_round_trip(a.0@[i / 2] % 16);
        }
    }
    assert forall|k: int| 0 <= k < 20 implies #[trigger] hex_bytes(s)[k] == a.0@[k] by {
        lemma_hex_digit_round_trip(a.0@[k] / 16);
        lemma_hex_digit_round_trip(a.0@[k] % 16);
        assert(s[2 * k] == hex_digit_char(a.0@[k] / 16));
        assert(s[2 * k + 1] == hex_digit_char(a.0@[k] % 16));
    }
    assert(hex_bytes(s) =~= a.0@);
}

impl crate::blockchain::Address for Address {
    /// The address's 40 lower-case hexadecimal digits, the name of its directory.
    fn path_repr(&self) -> (r: String)
        ensures
            r@ == hex_chars(self.0@),
    {
        let mut cs: Vec<char> = Vec::new();
        let mut i: usize = 0;
        while i < 20
            invariant
                0 <= i <= 20,
                cs@ == hex_chars(self.0@).take(2 * i),
            decreases 20 - i,
        {
            let b = self.0[i];
            cs.push(digit_char(b / 16));
            cs.push(digit_char(b % 16));
            i = i + 1;
            assert(cs@ =~= hex_chars(self.0@).take(2 * i));
        }
        assert(hex_chars(self.0@).take(40) =~= hex_chars(self.0@));
        crate::path::string_from_chars(cs.as_slice())
    }
}

} // verus!
