//! The strings of a JSON text: where each ends, and what it stands for.

use vstd::prelude::*;

verus! {

/// How many bytes there are from `i` on before the quote that closes a string of JSON. They reach
/// to the end of the text, or past it, where no quote does.
pub open spec fn literal_length(text: Seq<u8>, i: int) -> nat
    decreases
            if i < text.len() {
                text.len() - i
            } else {
                0
            },
{
    if i >= text.len() || text[i] == 0x22 {
        0
    } else if text[i] == 0x5c {
        2 + literal_length(text, i + 2)
    } else {
        1 + literal_length(text, i + 1)
    }
}

/// Whether a byte is a hexadecimal digit.
pub open spec fn is_hex(byte: u8) -> bool {
    0x30 <= byte <= 0x39 || 0x41 <= byte <= 0x46 || 0x61 <= byte <= 0x66
}

/// What a hexadecimal digit counts.
pub open spec fn hex_value(byte: u8) -> int {
    if byte <= 0x39 {
        byte - 0x30
    } else if byte <= 0x46 {
        byte - 0x37
    } else {
        byte - 0x57
    }
}

/// Whether the bytes from `i` on start with `\u` and four hexadecimal digits.
pub open spec fn is_unit(raw: Seq<u8>, i: int) -> bool {
    &&& i + 5 < raw.len()
    &&& raw[i] == 0x5c && raw[i + 1] == 0x75
    &&& is_hex(raw[i + 2]) && is_hex(raw[i + 3]) && is_hex(raw[i + 4]) && is_hex(raw[i + 5])
}

/// The number that those four digits write.
pub open spec fn unit_at(raw: Seq<u8>, i: int) -> int {
    0x1000 * hex_value(raw[i + 2]) + 0x100 * hex_value(raw[i + 3]) + 0x10 * hex_value(raw[i + 4])
        + hex_value(raw[i + 5])
}

/// The UTF-8 bytes of the character with this number.
pub open spec fn utf8_of(code: int) -> Seq<u8> {
    if code < 0x80 {
        seq![code as u8]
    } else if code < 0x800 {
        seq![(0xc0 + code / 0x40) as u8, (0x80 + code % 0x40) as u8]
    } else if code < 0x1_0000 {
        seq![
            (0xe0 + code / 0x1000) as u8,
            (0x80 + code / 0x40 % 0x40) as u8,
            (0x80 + code % 0x40) as u8,
        ]
    } else {
        seq![
            (0xf0 + code / 0x4_0000) as u8,
            (0x80 + code / 0x1000 % 0x40) as u8,
            (0x80 + code / 0x40 % 0x40) as u8,
            (0x80 + code % 0x40) as u8,
        ]
    }
}

/// The bytes that the escape at `i` stands for, and how many it is written with; `None` where it
/// is no escape of JSON. A character beyond the first `0x1_0000` is written as two units.
pub open spec fn escape_at(raw: Seq<u8>, i: int) -> Option<(Seq<u8>, nat)> {
    if i + 1 >= raw.len() {
        None
    } else if is_unit(raw, i) {
        let high = unit_at(raw, i);
        let low = unit_at(raw, i + 6);
        if high < 0xd800 || high > 0xdfff {
            Some((utf8_of(high), 6))
        } else if high <= 0xdbff && is_unit(raw, i + 6) && 0xdc00 <= low <= 0xdfff {
            Some((utf8_of(0x1_0000 + 0x400 * (high - 0xd800) + (low - 0xdc00)), 12))
        } else {
            None
        }
    } else {
        let escaped = raw[i + 1];
        if escaped == 0x22 || escaped == 0x5c || escaped == 0x2f {
            Some((seq![escaped], 2))
        } else if escaped == 0x62 {
            Some((seq![0x08u8], 2))
        } else if escaped == 0x66 {
            Some((seq![0x0cu8], 2))
        } else if escaped == 0x6e {
            Some((seq![0x0au8], 2))
        } else if escaped == 0x72 {
            Some((seq![0x0du8], 2))
        } else if escaped == 0x74 {
            Some((seq![0x09u8], 2))
        } else {
            None
        }
    }
}

/// Bytes, and behind them those of the rest, where there are any to be had.
pub open spec fn followed(bytes: Seq<u8>, rest: Option<Seq<u8>>) -> Option<Seq<u8>> {
    match rest {
        Some(r) => Some(bytes + r),
        None => None,
    }
}

/// What the bytes between the quotes of a string stand for, from `i` on; `None` where an escape is
/// broken.
pub open spec fn decoded(raw: Seq<u8>, i: int) -> Option<Seq<u8>>
    decreases
            if i < raw.len() {
                raw.len() - i
            } else {
                0
            },
{
    if i >= raw.len() {
        Some(Seq::empty())
    } else if raw[i] != 0x5c {
        followed(seq![raw[i]], decoded(raw, i + 1))
    } else {
        match escape_at(raw, i) {
            Some(escape) => if escape.1 > 0 {
                followed(escape.0, decoded(raw, i + escape.1))
            } else {
                None
            },
            None => None,
        }
    }
}

/// The place of the quote that closes a string whose rest starts at `from`, or the end of the text
/// where none does.
pub fn find_closing_quote(text: &[u8], from: usize) -> (end: usize)
    requires
        from <= text@.len(),
    ensures
        from <= end <= text@.len(),
        end < text@.len() ==> end == from + literal_length(text@, from as int),
        end == text@.len() ==> from + literal_length(text@, from as int) >= end,
{
    let mut i: usize = from;
    while i < text.len()
        invariant
            from <= i <= text@.len(),
            from + literal_length(text@, from as int) == i + literal_length(text@, i as int),
        decreases text.len() - i,
    {
        if text[i] == 0x22 {
            return i;
        }
        if text[i] == 0x5c {
            if text.len() - i < 2 {
                return text.len();
            }
            i = i + 2;
        } else {
            i = i + 1;
        }
    }
    i
}

fn hex_digit(byte: u8) -> (value: Option<u32>)
    ensures
        match value {
            Some(v) => is_hex(byte) && v == hex_value(byte) && v < 16,
            None => !is_hex(byte),
        },
{
    if 0x30 <= byte && byte <= 0x39 {
        Some((byte - 0x30) as u32)
    } else if 0x41 <= byte && byte <= 0x46 {
        Some((byte - 0x37) as u32)
    } else if 0x61 <= byte && byte <= 0x66 {
        Some((byte - 0x57) as u32)
    } else {
        None
    }
}

fn read_unit(raw: &[u8], i: usize) -> (unit: Option<u32>)
    requires
        i <= raw@.len(),
    ensures
        match unit {
            Some(u) => is_unit(raw@, i as int) && u == unit_at(raw@, i as int) && u <= 0xffff,
            None => !is_unit(raw@, i as int),
        },
{
    if raw.len() - i < 6 || raw[i] != 0x5c || raw[i + 1] != 0x75 {
        return None;
    }
    let a: u32 = hex_digit(raw[i + 2])?;
    let b: u32 = hex_digit(raw[i + 3])?;
    let c: u32 = hex_digit(raw[i + 4])?;
    let d: u32 = hex_digit(raw[i + 5])?;
    Some(0x1000 * a + 0x100 * b + 0x10 * c + d)
}

fn utf8_bytes(code: u32) -> (bytes: Vec<u8>)
    requires
        code < 0x11_0000,
    ensures
        bytes@ == utf8_of(code as int),
{
    if code < 0x80 {
        vec![code as u8]
    } else if code < 0x800 {
        vec![(0xc0 + code / 0x40) as u8, (0x80 + code % 0x40) as u8]
    } else if code < 0x1_0000 {
        vec![
            (0xe0 + code / 0x1000) as u8,
            (0x80 + code / 0x40 % 0x40) as u8,
            (0x80 + code % 0x40) as u8,
        ]
    } else {
        vec![
            (0xf0 + code / 0x4_0000) as u8,
            (0x80 + code / 0x1000 % 0x40) as u8,
            (0x80 + code / 0x40 % 0x40) as u8,
            (0x80 + code % 0x40) as u8,
        ]
    }
}

fn short_escape(escaped: u8) -> (byte: Option<u8>)
    ensures
        forall|raw: Seq<u8>, i: int|
            i + 1 < raw.len() && raw[i + 1] == escaped && !is_unit(raw, i) ==> #[trigger] escape_at(
                raw,
                i,
            ) == match byte {
                Some(b) => Some((seq![b], 2nat)),
                None => None,
            },
{
    if escaped == 0x22 || escaped == 0x5c || escaped == 0x2f {
        Some(escaped)
    } else if escaped == 0x62 {
        Some(0x08)
    } else if escaped == 0x66 {
        Some(0x0c)
    } else if escaped == 0x6e {
        Some(0x0a)
    } else if escaped == 0x72 {
        Some(0x0d)
    } else if escaped == 0x74 {
        Some(0x09)
    } else {
        None
    }
}

fn read_escape(raw: &[u8], i: usize) -> (escape: Option<(Vec<u8>, usize)>)
    requires
        i < raw@.len(),
    ensures
        match escape {
            Some(e) => {
                &&& escape_at(raw@, i as int) == Some((e.0@, e.1 as nat))
                &&& e.1 > 0 && i + e.1 <= raw@.len()
            },
            None => escape_at(raw@, i as int) is None,
        },
{
    if raw.len() - i < 2 {
        return None;
    }
    match read_unit(raw, i) {
        Some(high) => {
            if high < 0xd800 || high > 0xdfff {
                return Some((utf8_bytes(high), 6));
            }
            match read_unit(raw, i + 6) {
                Some(low) => {
                    if high <= 0xdbff && 0xdc00 <= low && low <= 0xdfff {
                        let code: u32 = 0x1_0000 + 0x400 * (high - 0xd800) + (low - 0xdc00);
                        Some((utf8_bytes(code), 12))
                    } else {
                        None
                    }
                },
                None => None,
            }
        },
        None => match short_escape(raw[i + 1]) {
            Some(byte) => Some((vec![byte], 2)),
            None => None,
        },
    }
}

/// What the bytes between the quotes of a string stand for, as UTF-8, or `None` where an escape is
/// broken.
pub fn decode(raw: &[u8]) -> (bytes: Option<Vec<u8>>)
    ensures
        match bytes {
            Some(b) => decoded(raw@, 0) == Some(b@),
            None => decoded(raw@, 0) is None,
        },
{
    let mut out: Vec<u8> = Vec::new();
    let mut i: usize = 0;
    assert(followed(out@, decoded(raw@, 0)) =~= decoded(raw@, 0)) by {
        if let Some(r) = decoded(raw@, 0) {
            assert(out@ + r =~= r);
        }
    }
    while i < raw.len()
        invariant
            i <= raw@.len(),
            decoded(raw@, 0) == followed(out@, decoded(raw@, i as int)),
        decreases raw.len() - i,
    {
        let ghost before = out@;
        if raw[i] != 0x5c {
            let ghost rest = decoded(raw@, i + 1);
            out.push(raw[i]);
            i = i + 1;
            proof {
                if let Some(r) = rest {
                    assert(before + (seq![raw@[i - 1]] + r) =~= out@ + r);
                }
            }
        } else {
            match read_escape(raw, i) {
                Some((bytes, n)) => {
                    let ghost stands = bytes@;
                    let mut more: Vec<u8> = bytes;
                    out.append(&mut more);
                    proof {
                        if let Some(r) = decoded(raw@, i + n) {
                            assert(before + (stands + r) =~= out@ + r);
                        }
                    }
                    i = i + n;
                },
                None => {
                    return None;
                },
            }
        }
    }
    assert(out@ + Seq::<u8>::empty() =~= out@);
    Some(out)
}

} // verus!
