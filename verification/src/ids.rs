//! Identifiers of sites, workers, incidents, users and disputes.

use vstd::arithmetic::power::pow;
use vstd::prelude::*;

use crate::text::{hex, lemma_hex_is_injective, lemma_hex_len};

verus! {

/// A UUID, as the 128-bit number that its bytes spell in big-endian order.
#[derive(Clone, Copy, Debug, PartialEq, Eq, Hash, Structural)]
pub struct Uuid {
    pub bits: u128,
}

/// The low `width` bytes of `n`, most significant first.
pub open spec fn big_endian(n: nat, width: nat) -> Seq<u8>
    decreases width,
{
    if width == 0 {
        Seq::empty()
    } else {
        big_endian(n / 256, (width - 1) as nat).push((n % 256) as u8)
    }
}

/// Hexadecimal digits grouped by hyphens as a UUID is written: 8-4-4-4-12.
pub open spec fn hyphenated(digits: Seq<char>) -> Seq<char> {
    digits.subrange(0, 8) + seq!['-'] + digits.subrange(8, 12) + seq!['-'] + digits.subrange(12, 16)
        + seq!['-'] + digits.subrange(16, 20) + seq!['-'] + digits.subrange(20, 32)
}

/// `uuid::Uuid::as_bytes` of the UUID that `uuid::Uuid::from_u128` makes of `bits`: the sixteen
/// bytes of the number, most significant first.
#[verifier::external_body]
fn uuid_bytes(bits: u128) -> (bytes: [u8; 16])
    ensures
        bytes@ == big_endian(bits as nat, 16),
{
    *uuid::Uuid::from_u128(bits).as_bytes()
}

/// The `Display` text of the UUID that `uuid::Uuid::from_u128` makes of `bits`: its 32 lower-case
/// hexadecimal digits, hyphenated.
#[verifier::external_body]
fn uuid_text(bits: u128) -> (text: String)
    ensures
        text@ == hyphenated(hex(bits as nat, 32)),
{
    uuid::Uuid::from_u128(bits).to_string()
}

impl Uuid {
    /// The sixteen bytes of the identifier.
    pub open spec fn spec_bytes(self) -> Seq<u8> {
        big_endian(self.bits as nat, 16)
    }

    /// The identifier as it is written.
    pub open spec fn spec_text(self) -> Seq<char> {
        hyphenated(hex(self.bits as nat, 32))
    }

    /// The sixteen bytes of the identifier, most significant first.
    pub fn as_bytes(&self) -> (bytes: [u8; 16])
        ensures
            bytes@ == self.spec_bytes(),
    {
        uuid_bytes(self.bits)
    }

    /// The identifier in hyphenated lower-case form.
    pub fn text(&self) -> (text: String)
        ensures
            text@ == self.spec_text(),
    {
        uuid_text(self.bits)
    }
}

/// Numbers that fit into `width` bytes are told apart by them.
proof fn lemma_big_endian_is_injective(m: nat, n: nat, width: nat)
    requires
        m < pow(256, width),
        n < pow(256, width),
        big_endian(m, width) == big_endian(n, width),
    ensures
        m == n,
    decreases width,
{
    reveal(pow);
    if width > 0 {
        let shorter = (width - 1) as nat;
        let (a, b) = (big_endian(m / 256, shorter), big_endian(n / 256, shorter));
        let (c, d) = ((m % 256) as u8, (n % 256) as u8);
        assert(a.push(c).drop_last() =~= a);
        assert(b.push(d).drop_last() =~= b);
        assert(a.push(c).last() == c && b.push(d).last() == d);
        lemma_big_endian_is_injective(m / 256, n / 256, shorter);
    }
}

/// Two identifiers have the same bytes only if they are the same, and the same text only if they
/// are the same.
pub proof fn law_ids_are_unambiguous(a: Uuid, b: Uuid)
    ensures
        a.spec_bytes() == b.spec_bytes() ==> a == b,
        a.spec_text() == b.spec_text() ==> a == b,
{
    assert(pow(256, 16) == 0x1_0000_0000_0000_0000_0000_0000_0000_0000) by {
        reveal_with_fuel(pow, 17);
    }
    assert(pow(16, 32) == 0x1_0000_0000_0000_0000_0000_0000_0000_0000) by {
        reveal_with_fuel(pow, 33);
    }
    if a.spec_bytes() == b.spec_bytes() {
        lemma_big_endian_is_injective(a.bits as nat, b.bits as nat, 16);
    }
    if a.spec_text() == b.spec_text() {
        let (x, y) = (hex(a.bits as nat, 32), hex(b.bits as nat, 32));
        lemma_hex_len(a.bits as nat, 32);
        lemma_hex_len(b.bits as nat, 32);
        let (s, t) = (hyphenated(x), hyphenated(y));
        assert(s.subrange(0, 8) =~= x.subrange(0, 8) && t.subrange(0, 8) =~= y.subrange(0, 8));
        assert(s.subrange(9, 13) =~= x.subrange(8, 12) && t.subrange(9, 13) =~= y.subrange(8, 12));
        assert(s.subrange(14, 18) =~= x.subrange(12, 16) && t.subrange(14, 18) =~= y.subrange(
            12,
            16,
        ));
        assert(s.subrange(19, 23) =~= x.subrange(16, 20) && t.subrange(19, 23) =~= y.subrange(
            16,
            20,
        ));
        assert(s.subrange(24, 36) =~= x.subrange(20, 32) && t.subrange(24, 36) =~= y.subrange(
            20,
            32,
        ));
        assert(x =~= x.subrange(0, 8) + x.subrange(8, 12) + x.subrange(12, 16) + x.subrange(16, 20)
            + x.subrange(20, 32));
        assert(y =~= y.subrange(0, 8) + y.subrange(8, 12) + y.subrange(12, 16) + y.subrange(16, 20)
            + y.subrange(20, 32));
        lemma_hex_is_injective(a.bits as nat, b.bits as nat, 32);
    }
}

} // verus!
