//! What holds of the guard before the reader of contract interfaces, told by the texts that it is
//! given.

use ethers::abi::Abi;
use vstd::prelude::*;
use vstd::utf8::encode_utf8;

use crate::abi::{abi_of, can_be_read, read_abi, reads_through, Reading};
use crate::abi_type::{
    array_length, chars_from, is_number, last_bracket, reader_stops, tuple_panics, type_panics,
};
use crate::json::{decode, decoded, find_closing_quote, literal_length};

verus! {

/// Whether a string of a JSON text starts at `i` and stands for `name`.
pub open spec fn has_string(text: Seq<u8>, i: int, name: Seq<u8>) -> bool {
    let end = i + literal_length(text, i);
    &&& 1 <= i <= end < text.len()
    &&& text[i - 1] == 0x22
    &&& decoded(text.subrange(i, end), 0) == Some(name)
}

proof fn lemma_reads_through(text: Seq<u8>, i: int, known: Reading)
    requires
        0 <= i,
        !known.inputs_panic && !known.outputs_panic,
        forall|s: int, name: Seq<u8>| #[trigger]
            has_string(text, s, name) ==> !type_panics(name, 512),
    ensures
        reads_through(text, i, known),
    decreases
            if i < text.len() {
                text.len() - i
            } else {
                0
            },
{
    if i < text.len() {
        if text[i] == 0x22 {
            let end = i + 1 + literal_length(text, i + 1);
            if end < text.len() {
                if let Some(name) = decoded(text.subrange(i + 1, end), 0) {
                    assert(has_string(text, i + 1, name));
                    lemma_reads_through(text, end + 1, known.past(name));
                }
            }
        } else if text[i] == 0x7b || text[i] == 0x5b {
            lemma_reads_through(text, i + 1, known.opened(text[i] == 0x7b));
        } else if text[i] == 0x7d || text[i] == 0x5d {
            lemma_reads_through(text, i + 1, known.closed());
        } else if text[i] == 0x3a {
            lemma_reads_through(text, i + 1, known.at_value());
        } else if text[i] == 0x2c {
            lemma_reads_through(text, i + 1, known.at_next());
        } else {
            lemma_reads_through(text, i + 1, known);
        }
    }
}

/// The guard refuses nothing that is not broken: an interface is refused only where one of its
/// strings is a type name on which the reader stops. Any other text gets the reader's own verdict.
pub proof fn law_the_guard_refuses_only_broken_interfaces(
    json: &str,
    ok: bool,
    abi: Result<Abi, String>,
)
    requires
        call_ensures(can_be_read, (json,), ok),
        call_ensures(read_abi, (json,), abi),
    ensures
        !ok ==> exists|i: int, name: Seq<u8>| #[trigger]
            has_string(encode_utf8(json@), i, name) && type_panics(name, 512),
        !ok ==> abi is Err && abi->Err_0@ == "the interface has a type that cannot be read"@,
        ok ==> match abi {
            Ok(a) => abi_of(json@) == Ok::<Abi, Seq<char>>(a),
            Err(e) => abi_of(json@) == Err::<Abi, Seq<char>>(e@),
        },
{
    let text = encode_utf8(json@);
    if !ok {
        if forall|s: int, name: Seq<u8>| #[trigger]
            has_string(text, s, name) ==> !type_panics(name, 512) {
            lemma_reads_through(text, 0, Reading::start());
        }
        let (i, name) = choose|i: int, name: Seq<u8>| #[trigger]
            has_string(text, i, name) && type_panics(name, 512);
        assert(has_string(text, i, name));
    }
}

/// A name that ends neither in a bracket nor in a parenthesis is never stopped at.
pub proof fn law_plain_names_pass(name: &[u8], calls: u32, stops: bool)
    requires
        call_ensures(reader_stops, (name, calls), stops),
        name@.len() == 0 || (name@.last() != 0x29 && name@.last() != 0x5d),
    ensures
        !stops,
{
}

/// Whether bytes are ASCII throughout.
pub open spec fn is_ascii(bytes: Seq<u8>) -> bool {
    forall|i: int| 0 <= i < bytes.len() ==> #[trigger] bytes[i] < 0x80
}

proof fn lemma_ascii_chars(name: Seq<u8>, i: int)
    requires
        is_ascii(name),
        0 <= i <= name.len(),
    ensures
        chars_from(name, i) == name.len() - i,
    decreases name.len() - i,
{
    if i < name.len() {
        lemma_ascii_chars(name, i + 1);
    }
}

proof fn lemma_last_bracket(bytes: Seq<u8>, at: int)
    requires
        0 <= at < bytes.len(),
        bytes[at] == 0x5b,
        forall|i: int| at < i < bytes.len() ==> bytes[i] != 0x5b,
    ensures
        last_bracket(bytes) == at,
    decreases bytes.len(),
{
    if at < bytes.len() - 1 {
        assert(bytes.last() != 0x5b);
        lemma_last_bracket(bytes.drop_last(), at);
    }
}

/// An array is stopped at if and only if its elements are: behind an ASCII name, a suffix of
/// brackets with digits or nothing between them costs one call and changes nothing else.
pub proof fn law_arrays_are_judged_by_their_elements(
    element: &[u8],
    digits: Seq<u8>,
    array: &[u8],
    calls: u32,
    element_stops: bool,
    array_stops: bool,
)
    requires
        calls < u32::MAX,
        is_ascii(element@),
        forall|i: int| 0 <= i < digits.len() ==> 0x30 <= #[trigger] digits[i] <= 0x39,
        array@ == element@ + seq![0x5bu8] + digits + seq![0x5du8],
        call_ensures(reader_stops, (element, calls), element_stops),
        call_ensures(reader_stops, (array, (calls + 1) as u32), array_stops),
    ensures
        array_stops == element_stops,
{
    let name = array@;
    let n = element@.len() as int;
    assert(name.last() == 0x5d);
    assert(name.drop_last() =~= element@ + seq![0x5bu8] + digits);
    assert(name.drop_last()[n] == 0x5b);
    assert forall|i: int| n < i < name.drop_last().len() implies name.drop_last()[i] != 0x5b by {
        assert(name.drop_last()[i] == digits[i - n - 1]);
    }
    lemma_last_bracket(name.drop_last(), n);
    assert(array_length(name) =~= digits);
    assert forall|i: int| 0 <= i < name.len() implies #[trigger] name[i] < 0x80 by {
        if i < n {
            assert(name[i] == element@[i]);
        } else if n < i < name.len() - 1 {
            assert(name[i] == digits[i - n - 1]);
        }
    }
    lemma_ascii_chars(name, 0);
    assert(name.take(n) =~= element@);
    if digits.len() > 0 {
        assert(digits[0] != 0x2b);
        assert(is_number(digits));
    }
}

/// Whether bytes are an item of a name in parentheses: ASCII, and none of `(`, `)` and `,`.
pub open spec fn is_item(bytes: Seq<u8>) -> bool {
    &&& bytes.len() > 0
    &&& forall|i: int|
        0 <= i < bytes.len() ==> (#[trigger] bytes[i]) < 0x80 && bytes[i] != 0x28 && bytes[i] != 0x29
            && bytes[i] != 0x2c
}

/// Walking over an item changes nothing.
proof fn lemma_walk(name: Seq<u8>, calls: nat, i: int, j: int, item: int)
    requires
        0 <= i <= j <= name.len(),
        forall|k: int|
            i <= k < j ==> (#[trigger] name[k]) < 0x80 && name[k] != 0x28 && name[k] != 0x29
                && name[k] != 0x2c,
    ensures
        tuple_panics(name, calls, i, i, 1, 0, item) == tuple_panics(name, calls, j, j, 1, 0, item),
    decreases j - i,
{
    if i < j {
        lemma_walk(name, calls, i + 1, j, item);
    }
}

/// A name of two items in parentheses is stopped at if and only if one of the items is: it costs one
/// call and changes nothing else.
pub proof fn law_tuples_are_judged_by_their_items(
    first: &[u8],
    second: &[u8],
    tuple: &[u8],
    calls: u32,
    first_stops: bool,
    second_stops: bool,
    tuple_stops: bool,
)
    requires
        calls < u32::MAX,
        is_item(first@),
        is_item(second@),
        tuple@ == seq![0x28u8] + first@ + seq![0x2cu8] + second@ + seq![0x29u8],
        call_ensures(reader_stops, (first, calls), first_stops),
        call_ensures(reader_stops, (second, calls), second_stops),
        call_ensures(reader_stops, (tuple, (calls + 1) as u32), tuple_stops),
    ensures
        tuple_stops == (first_stops || second_stops),
{
    let name = tuple@;
    let c = (calls + 1) as nat;
    let (m, n) = (first@.len() as int, second@.len() as int);
    assert(name[0] == 0x28 && name[m + 1] == 0x2c && name[m + n + 2] == 0x29);
    assert(name.len() == m + n + 3);
    assert forall|k: int| 1 <= k < m + 1 implies (#[trigger] name[k]) < 0x80 && name[k] != 0x28
        && name[k] != 0x29 && name[k] != 0x2c by {
        assert(name[k] == first@[k - 1]);
    }
    assert forall|k: int| m + 2 <= k < m + n + 2 implies (#[trigger] name[k]) < 0x80 && name[k]
        != 0x28 && name[k] != 0x29 && name[k] != 0x2c by {
        assert(name[k] == second@[k - m - 2]);
    }
    assert(name.subrange(1, m + 1) =~= first@);
    assert(name.subrange(m + 2, m + n + 2) =~= second@);
    assert(tuple_panics(name, c, 0, 0, 0, 0, 1) == tuple_panics(name, c, 1, 1, 1, 0, 1));
    lemma_walk(name, c, 1, m + 1, 1);
    assert(tuple_panics(name, c, m + 1, m + 1, 1, 0, 1) == (type_panics(first@, calls as nat)
        || tuple_panics(name, c, m + 2, m + 2, 1, 0, m + 2)));
    lemma_walk(name, c, m + 2, m + n + 2, m + 2);
    assert(!tuple_panics(name, c, m + n + 3, m + n + 3, 0, 0, m + n + 3));
    assert(tuple_panics(name, c, m + n + 2, m + n + 2, 1, 0, m + 2) == type_panics(
        second@,
        calls as nat,
    ));
}

/// A name of one item in parentheses is stopped at if and only if the item is, and a pair of
/// parentheses with nothing between them never.
pub proof fn law_single_items_are_judged_by_themselves(
    item: &[u8],
    tuple: &[u8],
    calls: u32,
    item_stops: bool,
    tuple_stops: bool,
    empty: &[u8],
    empty_stops: bool,
)
    requires
        calls < u32::MAX,
        is_item(item@),
        tuple@ == seq![0x28u8] + item@ + seq![0x29u8],
        call_ensures(reader_stops, (item, calls), item_stops),
        call_ensures(reader_stops, (tuple, (calls + 1) as u32), tuple_stops),
        empty@ == seq![0x28u8, 0x29u8],
        call_ensures(reader_stops, (empty, calls), empty_stops),
    ensures
        tuple_stops == item_stops,
        !empty_stops,
{
    let name = tuple@;
    let c = (calls + 1) as nat;
    let m = item@.len() as int;
    assert(name[0] == 0x28 && name[m + 1] == 0x29);
    assert(name.len() == m + 2);
    assert forall|k: int| 1 <= k < m + 1 implies (#[trigger] name[k]) < 0x80 && name[k] != 0x28
        && name[k] != 0x29 && name[k] != 0x2c by {
        assert(name[k] == item@[k - 1]);
    }
    assert(name.subrange(1, m + 1) =~= item@);
    assert(tuple_panics(name, c, 0, 0, 0, 0, 1) == tuple_panics(name, c, 1, 1, 1, 0, 1));
    lemma_walk(name, c, 1, m + 1, 1);
    assert(!tuple_panics(name, c, m + 2, m + 2, 0, 0, m + 2));
    assert(tuple_panics(name, c, m + 1, m + 1, 1, 0, 1) == type_panics(item@, calls as nat));
    let pair = empty@;
    assert(pair.last() == 0x29 && pair[0] == 0x28 && pair[1] == 0x29);
    assert(!tuple_panics(pair, calls as nat, 2, 2, 0, 0, 2));
    assert(!tuple_panics(pair, calls as nat, 1, 1, 1, 0, 1));
    assert(!tuple_panics(pair, calls as nat, 0, 0, 0, 0, 1));
}

/// Every ASCII character may be written as an escape of four hexadecimal digits, and stands for
/// itself then.
pub proof fn law_escapes_stand_for_characters(raw: &[u8], bytes: Option<Vec<u8>>, c: u8)
    requires
        c < 0x80,
        raw@.len() == 6,
        raw@[0] == 0x5c && raw@[1] == 0x75 && raw@[2] == 0x30 && raw@[3] == 0x30,
        raw@[4] == 0x30 + c / 16,
        c % 16 < 10 ==> raw@[5] == 0x30 + c % 16,
        c % 16 >= 10 ==> raw@[5] == 0x61 + (c % 16 - 10) || raw@[5] == 0x41 + (c % 16 - 10),
        call_ensures(decode, (raw,), bytes),
    ensures
        bytes is Some && bytes->0@ == seq![c],
{
    reveal_with_fuel(decoded, 2);
    assert(seq![c] + Seq::<u8>::empty() =~= seq![c]);
}

/// Text without an escape stands for itself, and a string ends at its next quote.
pub proof fn law_plain_strings_stand_for_themselves(
    raw: &[u8],
    bytes: Option<Vec<u8>>,
    text: &[u8],
    from: usize,
    end: usize,
    quote: int,
)
    requires
        call_ensures(decode, (raw,), bytes),
        forall|i: int| 0 <= i < raw@.len() ==> #[trigger] raw@[i] != 0x5c,
        call_ensures(find_closing_quote, (text, from), end),
        from <= quote < text@.len(),
        text@[quote] == 0x22,
        forall|i: int|
            from <= i < quote ==> #[trigger] text@[i] != 0x22 && text@[i] != 0x5c,
    ensures
        bytes is Some && bytes->0@ == raw@,
        end == quote,
{
    lemma_plain(raw@, 0);
    assert(raw@.skip(0) =~= raw@);
    lemma_quote(text@, from as int, quote);
}

proof fn lemma_plain(raw: Seq<u8>, i: int)
    requires
        0 <= i <= raw.len(),
        forall|j: int| 0 <= j < raw.len() ==> #[trigger] raw[j] != 0x5c,
    ensures
        decoded(raw, i) == Some(raw.skip(i)),
    decreases raw.len() - i,
{
    if i < raw.len() {
        lemma_plain(raw, i + 1);
        assert(seq![raw[i]] + raw.skip(i + 1) =~= raw.skip(i));
    } else {
        assert(raw.skip(i) =~= Seq::empty());
    }
}

proof fn lemma_quote(text: Seq<u8>, i: int, quote: int)
    requires
        0 <= i <= quote < text.len(),
        text[quote] == 0x22,
        forall|j: int| i <= j < quote ==> #[trigger] text[j] != 0x22 && text[j] != 0x5c,
    ensures
        literal_length(text, i) == quote - i,
    decreases quote - i,
{
    if i < quote {
        lemma_quote(text, i + 1, quote);
    }
}

} // verus!
