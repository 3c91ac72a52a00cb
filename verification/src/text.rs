//! Text building blocks: comparison, concatenation, numbers and digests in decimal and hexadecimal.

use vstd::arithmetic::power::pow;
use vstd::prelude::*;
use vstd::string::StringExecFns;

verus! {

/// The lower-case digit of value `d`, for `d` below 16.
pub open spec fn digit(d: int) -> char {
    (if d < 10 {
        48 + d
    } else {
        87 + d
    }) as char
}

/// `n` in decimal, without leading zeros.
pub open spec fn decimal(n: nat) -> Seq<char>
    decreases n,
{
    if n < 10 {
        seq![digit(n as int)]
    } else {
        decimal(n / 10).push(digit((n % 10) as int))
    }
}

/// The last `width` hexadecimal digits of `n`, padded with zeros on the left.
pub open spec fn hex(n: nat, width: nat) -> Seq<char>
    decreases width,
{
    if width == 0 {
        Seq::empty()
    } else {
        hex(n / 16, (width - 1) as nat).push(digit((n % 16) as int))
    }
}

/// Each byte as two hexadecimal digits, in order.
pub open spec fn bytes_hex(bytes: Seq<u8>) -> Seq<char> {
    Seq::new(
        2 * bytes.len(),
        |i: int|
            if i % 2 == 0 {
                digit(bytes[i / 2] as int / 16)
            } else {
                digit(bytes[i / 2] as int % 16)
            },
    )
}

/// Whether two texts hold the same characters.
pub(crate) fn same_text(a: &str, b: &str) -> (same: bool)
    ensures
        same == (a@ == b@),
{
    a.to_owned() == b.to_owned()
}

/// Two texts, one after the other.
pub(crate) fn join2(a: &str, b: &str) -> (joined: String)
    ensures
        joined@ == a@ + b@,
{
    let mut joined: String = a.to_owned();
    joined.append(b);
    joined
}

/// Three texts, one after the other.
pub(crate) fn join3(a: &str, b: &str, c: &str) -> (joined: String)
    ensures
        joined@ == a@ + b@ + c@,
{
    let mut joined: String = join2(a, b);
    joined.append(c);
    joined
}

/// Five texts, one after the other.
pub(crate) fn join5(a: &str, b: &str, c: &str, d: &str, e: &str) -> (joined: String)
    ensures
        joined@ == a@ + b@ + c@ + d@ + e@,
{
    let mut joined: String = join3(a, b, c);
    joined.append(d);
    joined.append(e);
    joined
}

/// The digit of value `d` as a text of one character.
fn digit_text(d: u64) -> (text: &'static str)
    requires
        d < 16,
    ensures
        text@ == seq![digit(d as int)],
{
    proof {
        reveal_strlit("0");
        reveal_strlit("1");
        reveal_strlit("2");
        reveal_strlit("3");
        reveal_strlit("4");
        reveal_strlit("5");
        reveal_strlit("6");
        reveal_strlit("7");
        reveal_strlit("8");
        reveal_strlit("9");
        reveal_strlit("a");
        reveal_strlit("b");
        reveal_strlit("c");
        reveal_strlit("d");
        reveal_strlit("e");
        reveal_strlit("f");
    }
    match d {
        0 => "0",
        1 => "1",
        2 => "2",
        3 => "3",
        4 => "4",
        5 => "5",
        6 => "6",
        7 => "7",
        8 => "8",
        9 => "9",
        10 => "a",
        11 => "b",
        12 => "c",
        13 => "d",
        14 => "e",
        _ => "f",
    }
}

/// `n` in decimal.
pub(crate) fn decimal_text(n: u64) -> (text: String)
    ensures
        text@ == decimal(n as nat),
    decreases n,
{
    if n < 10 {
        digit_text(n).to_owned()
    } else {
        let mut text: String = decimal_text(n / 10);
        text.append(digit_text(n % 10));
        text
    }
}

/// The last `width` hexadecimal digits of `n`.
pub(crate) fn hex_text(n: u64, width: u32) -> (text: String)
    ensures
        text@ == hex(n as nat, width as nat),
    decreases width,
{
    if width == 0 {
        String::new()
    } else {
        let mut text: String = hex_text(n / 16, width - 1);
        text.append(digit_text(n % 16));
        text
    }
}

/// Hexadecimal digits, as many as asked for.
pub proof fn lemma_hex_len(n: nat, width: nat)
    ensures
        hex(n, width).len() == width,
    decreases width,
{
    if width > 0 {
        lemma_hex_len(n / 16, (width - 1) as nat);
    }
}

/// Numbers that fit into `width` hexadecimal digits are told apart by them.
pub proof fn lemma_hex_is_injective(m: nat, n: nat, width: nat)
    requires
        m < pow(16, width),
        n < pow(16, width),
        hex(m, width) == hex(n, width),
    ensures
        m == n,
    decreases width,
{
    reveal(pow);
    if width > 0 {
        let shorter = (width - 1) as nat;
        let (a, b) = (hex(m / 16, shorter), hex(n / 16, shorter));
        let (c, d) = (digit((m % 16) as int), digit((n % 16) as int));
        assert(a.push(c).drop_last() =~= a);
        assert(b.push(d).drop_last() =~= b);
        assert(a.push(c).last() == c && b.push(d).last() == d);
        lemma_hex_is_injective(m / 16, n / 16, shorter);
    }
}

} // verus!
