//! The names of a contract's types: on which of them `ethabi`'s reader panics.
//!
//! The reader counts characters and cuts the name at these counts as if they were bytes. A name is
//! the bytes of a text in UTF-8.

use vstd::prelude::*;
use vstd::slice::slice_subrange;

verus! {

/// How many calls deep the reader may go into a name. Each array suffix takes one call, on top of
/// the call before; without optimisation a call takes over three kilobytes of the stack, of which
/// a thread has two megabytes unless it is given more.
pub const MAX_CALLS: u32 = 512;

/// Whether a byte of UTF-8 goes on with a character that an earlier one began.
pub open spec fn continues(byte: u8) -> bool {
    0x80 <= byte <= 0xbf
}

/// How many characters begin from `i` on.
pub open spec fn chars_from(name: Seq<u8>, i: int) -> nat
    decreases name.len() - i,
{
    if i >= name.len() {
        0
    } else {
        (if continues(name[i]) {
            0nat
        } else {
            1
        }) + chars_from(name, i + 1)
    }
}

/// Whether a name can be cut before the byte at `i`.
pub open spec fn is_boundary(name: Seq<u8>, i: int) -> bool {
    0 <= i <= name.len() && (i == name.len() || !continues(name[i]))
}

/// Whether the bytes from `from` up to `to` can be cut out of a name.
pub open spec fn can_cut(name: Seq<u8>, from: int, to: int) -> bool {
    from <= to && is_boundary(name, from) && is_boundary(name, to)
}

/// Whether bytes are decimal digits, at least one, behind a plus sign or none.
pub open spec fn is_number(bytes: Seq<u8>) -> bool {
    let start: int = if bytes.len() > 0 && bytes[0] == 0x2b {
        1
    } else {
        0
    };
    start < bytes.len() && forall|i: int| start <= i < bytes.len() ==> 0x30 <= #[trigger] bytes[i] <= 0x39
}

/// The place of the last opening bracket among bytes, or -1 where there is none.
pub open spec fn last_bracket(bytes: Seq<u8>) -> int
    decreases bytes.len(),
{
    if bytes.len() == 0 || bytes.last() == 0x5b {
        bytes.len() - 1
    } else {
        last_bracket(bytes.drop_last())
    }
}

/// What stands between the last opening bracket of a name, or its start, and its last byte.
pub open spec fn array_length(name: Seq<u8>) -> Seq<u8> {
    name.subrange(last_bracket(name.drop_last()) + 1, name.len() - 1)
}

/// How many bytes before the delimiter, `,` or `)`, that comes next from `i` on.
pub open spec fn suffix_bytes(name: Seq<u8>, i: int) -> nat
    decreases name.len() - i,
{
    if i >= name.len() || name[i] == 0x2c || name[i] == 0x29 {
        0
    } else {
        1 + suffix_bytes(name, i + 1)
    }
}

/// How many characters begin before that delimiter.
pub open spec fn suffix_chars(name: Seq<u8>, i: int) -> nat
    decreases name.len() - i,
{
    if i >= name.len() || name[i] == 0x2c || name[i] == 0x29 {
        0
    } else {
        (if continues(name[i]) {
            0nat
        } else {
            1
        }) + suffix_chars(name, i + 1)
    }
}

/// Whether the reader panics on a name, or goes more than `calls` calls deep, unless it stops at an
/// error before. A name that ends in a bracket is cut before its array suffix, and what is left is
/// read; where the length in the suffix is no number, the reader stops. A name in parentheses is
/// read item by item. Any other name is looked up.
pub open spec fn type_panics(name: Seq<u8>, calls: nat) -> bool
    decreases calls, name.len() + 1,
{
    if name.len() == 0 {
        false
    } else if name.last() == 0x29 {
        name[0] == 0x28 && tuple_panics(name, calls, 0, 0, 0, 0, 1)
    } else if name.last() == 0x5d {
        let length = array_length(name);
        let cut = chars_from(name, 0) - length.len() - 2;
        &&& length.len() == 0 || is_number(length)
        &&& {
            ||| !is_boundary(name, cut)
            ||| calls == 0
            ||| type_panics(name.take(cut), (calls - 1) as nat)
        }
    } else {
        false
    }
}

/// Whether the reader panics, or goes too deep, in a name in parentheses from the byte at `i` on,
/// at which the character with the number `pos` begins. `depth` parentheses are open, the latest
/// at `open`, and the current item starts at `item`, both counted in characters. An item ends at
/// the delimiter behind it. One that is itself in parentheses takes with it what stands behind them.
pub open spec fn tuple_panics(
    name: Seq<u8>,
    calls: nat,
    i: int,
    pos: int,
    depth: int,
    open: int,
    item: int,
) -> bool
    decreases
            calls,
            if i < name.len() {
                name.len() - i
            } else {
                0
            },
{
    if i >= name.len() {
        false
    } else if continues(name[i]) {
        tuple_panics(name, calls, i + 1, pos, depth, open, item)
    } else if name[i] == 0x28 {
        let start = if depth > 0 {
            pos + 1
        } else {
            item
        };
        tuple_panics(name, calls, i + 1, pos + 1, depth + 1, pos, start)
    } else if name[i] == 0x29 {
        if depth <= 0 {
            false
        } else if !can_cut(name, item, pos) {
            true
        } else if item == pos {
            tuple_panics(name, calls, i + 1, pos + 1, depth - 1, open, pos + 1)
        } else if depth == 1 {
            ||| calls == 0
            ||| type_panics(name.subrange(item, pos), (calls - 1) as nat)
            ||| tuple_panics(name, calls, i + 1, pos + 1, 0, open, pos + 1)
        } else {
            let end = i + 1 + suffix_bytes(name, i + 1);
            let next = pos + 1 + suffix_chars(name, i + 1);
            ||| !can_cut(name, open, next)
            ||| calls == 0
            ||| type_panics(name.subrange(open, next), (calls - 1) as nat)
            ||| tuple_panics(name, calls, end, next, depth - 1, open, next)
        }
    } else if name[i] == 0x2c {
        if !can_cut(name, item, pos) {
            true
        } else if item == pos {
            tuple_panics(name, calls, i + 1, pos + 1, depth, open, pos + 1)
        } else if depth > 0 {
            ||| calls == 0
            ||| type_panics(name.subrange(item, pos), (calls - 1) as nat)
            ||| tuple_panics(name, calls, i + 1, pos + 1, depth, open, pos + 1)
        } else {
            tuple_panics(name, calls, i + 1, pos + 1, depth, open, item)
        }
    } else {
        tuple_panics(name, calls, i + 1, pos + 1, depth, open, item)
    }
}

fn count_chars(name: &[u8]) -> (count: usize)
    ensures
        count == chars_from(name@, 0),
        count <= name@.len(),
{
    let mut count: usize = 0;
    let mut i: usize = 0;
    while i < name.len()
        invariant
            count <= i <= name@.len(),
            count + chars_from(name@, i as int) == chars_from(name@, 0),
        decreases name.len() - i,
    {
        if !(0x80 <= name[i] && name[i] <= 0xbf) {
            count = count + 1;
        }
        i = i + 1;
    }
    count
}

fn at_boundary(name: &[u8], i: usize) -> (ok: bool)
    ensures
        ok == is_boundary(name@, i as int),
{
    i <= name.len() && (i == name.len() || !(0x80 <= name[i] && name[i] <= 0xbf))
}

fn may_cut(name: &[u8], from: usize, to: usize) -> (ok: bool)
    ensures
        ok == can_cut(name@, from as int, to as int),
{
    from <= to && at_boundary(name, from) && at_boundary(name, to)
}

fn reads_as_number(bytes: &[u8]) -> (ok: bool)
    ensures
        ok == is_number(bytes@),
{
    let start: usize = if bytes.len() > 0 && bytes[0] == 0x2b {
        1
    } else {
        0
    };
    let mut i: usize = start;
    while i < bytes.len()
        invariant
            start <= i,
            start == (if bytes@.len() > 0 && bytes@[0] == 0x2b {
                1int
            } else {
                0
            }),
            start < i ==> i <= bytes@.len(),
            forall|j: int| start <= j < i ==> 0x30 <= #[trigger] bytes@[j] <= 0x39,
        decreases bytes.len() - i,
    {
        if bytes[i] < 0x30 || bytes[i] > 0x39 {
            return false;
        }
        i = i + 1;
    }
    start < bytes.len()
}

/// Where the length of an array starts in the name of its type.
fn find_array_length(name: &[u8]) -> (start: usize)
    requires
        name@.len() > 0,
    ensures
        start == last_bracket(name@.drop_last()) + 1,
        start < name@.len(),
{
    let ghost whole = name@.drop_last();
    let mut i: usize = name.len() - 1;
    assert(whole.take(i as int) =~= whole);
    while i > 0
        invariant
            i < name@.len(),
            whole == name@.drop_last(),
            last_bracket(whole) == last_bracket(whole.take(i as int)),
        decreases i,
    {
        let ghost part = whole.take(i as int);
        assert(part.last() == name@[i - 1]);
        assert(part.drop_last() =~= whole.take(i - 1));
        if name[i - 1] == 0x5b {
            return i;
        }
        i = i - 1;
    }
    i
}

/// The byte and the character behind what stands before the next delimiter.
fn skip_suffix(name: &[u8], from: usize, from_pos: usize) -> (ends: (usize, usize))
    requires
        from_pos <= from <= name@.len(),
    ensures
        ends.0 == from + suffix_bytes(name@, from as int),
        ends.1 == from_pos + suffix_chars(name@, from as int),
        ends.1 <= ends.0 <= name@.len(),
{
    let mut i: usize = from;
    let mut pos: usize = from_pos;
    while i < name.len() && name[i] != 0x2c && name[i] != 0x29
        invariant
            from <= i <= name@.len(),
            pos <= i,
            i + suffix_bytes(name@, i as int) == from + suffix_bytes(name@, from as int),
            pos + suffix_chars(name@, i as int) == from_pos + suffix_chars(name@, from as int),
        decreases name.len() - i,
    {
        if !(0x80 <= name[i] && name[i] <= 0xbf) {
            pos = pos + 1;
        }
        i = i + 1;
    }
    (i, pos)
}

/// Whether the reader panics, or goes too deep, on what is cut out of a name.
fn part_stops(name: &[u8], from: usize, to: usize, calls: u32) -> (stops: bool)
    requires
        from <= to <= name@.len(),
    ensures
        stops == (calls == 0 || type_panics(
            name@.subrange(from as int, to as int),
            (calls - 1) as nat,
        )),
    decreases calls, 0int,
{
    calls == 0 || reader_stops(slice_subrange(name, from, to), calls - 1)
}

fn tuple_stops(name: &[u8], calls: u32) -> (stops: bool)
    ensures
        stops == tuple_panics(name@, calls as nat, 0, 0, 0, 0, 1),
    decreases calls, 1int,
{
    let mut i: usize = 0;
    let mut pos: usize = 0;
    let mut depth: usize = 0;
    let mut open: usize = 0;
    let mut item: usize = 1;
    while i < name.len()
        invariant
            pos <= i <= name@.len(),
            depth <= i,
            tuple_panics(name@, calls as nat, 0, 0, 0, 0, 1) == tuple_panics(
                name@,
                calls as nat,
                i as int,
                pos as int,
                depth as int,
                open as int,
                item as int,
            ),
        decreases name.len() - i,
    {
        let byte: u8 = name[i];
        if 0x80 <= byte && byte <= 0xbf {
            i = i + 1;
        } else if byte == 0x28 {
            if depth > 0 {
                item = pos + 1;
            }
            open = pos;
            depth = depth + 1;
            i = i + 1;
            pos = pos + 1;
        } else if byte == 0x29 {
            if depth == 0 {
                return false;
            }
            if !may_cut(name, item, pos) {
                return true;
            }
            if item == pos || depth == 1 {
                if item < pos && part_stops(name, item, pos, calls) {
                    return true;
                }
                i = i + 1;
                pos = pos + 1;
            } else {
                let ends: (usize, usize) = skip_suffix(name, i + 1, pos + 1);
                if !may_cut(name, open, ends.1) || part_stops(name, open, ends.1, calls) {
                    return true;
                }
                i = ends.0;
                pos = ends.1;
            }
            item = pos;
            depth = depth - 1;
        } else if byte == 0x2c {
            if !may_cut(name, item, pos) {
                return true;
            }
            if item == pos {
                item = pos + 1;
            } else if depth > 0 {
                if part_stops(name, item, pos, calls) {
                    return true;
                }
                item = pos + 1;
            }
            i = i + 1;
            pos = pos + 1;
        } else {
            i = i + 1;
            pos = pos + 1;
        }
    }
    false
}

/// Whether the reader panics on a name, or goes too deep, unless it stops at an error before.
pub fn reader_stops(name: &[u8], calls: u32) -> (stops: bool)
    ensures
        stops == type_panics(name@, calls as nat),
    decreases calls, 2int,
{
    if name.len() == 0 {
        return false;
    }
    let last: u8 = name[name.len() - 1];
    if last == 0x29 {
        return name[0] == 0x28 && tuple_stops(name, calls);
    }
    if last != 0x5d {
        return false;
    }
    let start: usize = find_array_length(name);
    let length = slice_subrange(name, start, name.len() - 1);
    if length.len() > 0 && !reads_as_number(length) {
        return false;
    }
    let count: usize = count_chars(name);
    if count < 2 || count - 2 < length.len() {
        return true;
    }
    let cut: usize = count - 2 - length.len();
    if !at_boundary(name, cut) {
        return true;
    }
    assert(name@.take(cut as int) =~= name@.subrange(0, cut as int));
    part_stops(name, 0, cut, calls)
}

} // verus!
