//! What holds of points in time, identifiers and the model's failures, told by numbers and
//! characters.

use image::DynamicImage;
use vstd::arithmetic::div_mod::lemma_div_denominator;
use vstd::arithmetic::power::{lemma_pow_positive, pow};
use vstd::prelude::*;

use crate::attestation_laws::lemma_hex_digits;
use crate::ids::{big_endian, Uuid};
use crate::text::{decimal, hex, lemma_hex_len};
use crate::time::{elapsed_at_least, elapsed_nanos, TimeDelta, Timestamp};
use crate::vision::{RawDetection, VisionEngine, VisionError};

verus! {

/// An instant is what it was made of, and one is made of every second and every nanosecond, leap
/// seconds included, that a calendar of 262000 years to either side has.
pub proof fn law_instants_are_what_they_were_made_of(
    secs: i64,
    nanos: u32,
    made: Option<Timestamp>,
    t: Timestamp,
    read_secs: i64,
    read_nanos: u32,
)
    requires
        call_ensures(Timestamp::new, (secs, nanos), made),
        call_ensures(Timestamp::timestamp, (&t,), read_secs),
        call_ensures(Timestamp::timestamp_subsec_nanos, (&t,), read_nanos),
    ensures
        made is Some <==> -8_334_601_228_800 <= secs <= 8_210_266_876_799 && nanos < 2_000_000_000,
        made == Some(t) ==> read_secs == secs && read_nanos == nanos,
        read_secs == t.spec_secs() && read_nanos == t.spec_nanos(),
{
}

/// A span is what it was made of.
pub proof fn law_spans_are_what_they_were_made_of(
    secs: i64,
    nanos: u32,
    made: Option<TimeDelta>,
    whole: TimeDelta,
)
    requires
        call_ensures(TimeDelta::new, (secs, nanos), made),
        call_ensures(TimeDelta::seconds, (secs,), whole),
    ensures
        made is Some <==> nanos < 1_000_000_000,
        made matches Some(d) ==> d.spec_nanos() == secs * 1_000_000_000 + nanos,
        whole.spec_nanos() == secs * 1_000_000_000,
{
}

/// Outside of leap seconds, a window has passed if and only if the difference of the instants, in
/// nanoseconds, is at least the window; so a later instant and a smaller window are passed too.
pub proof fn law_a_window_passes_with_time(
    later: &Timestamp,
    earlier: &Timestamp,
    window: &TimeDelta,
    passed: bool,
)
    requires
        call_ensures(elapsed_at_least, (later, earlier, window), passed),
        later.spec_nanos() < 1_000_000_000,
        earlier.spec_nanos() < 1_000_000_000,
    ensures
        passed <==> (later.spec_secs() * 1_000_000_000 + later.spec_nanos()) - (earlier.spec_secs()
            * 1_000_000_000 + earlier.spec_nanos()) >= window.spec_nanos(),
        elapsed_nanos(*later, *earlier) == (later.spec_secs() * 1_000_000_000 + later.spec_nanos())
            - (earlier.spec_secs() * 1_000_000_000 + earlier.spec_nanos()),
        elapsed_nanos(*later, *earlier) == -elapsed_nanos(*earlier, *later),
{
}

/// A leap second counts as a second for the instants of its day: one that an instant lies in is
/// between that instant and every later second of the day, and between no two instants of one
/// second.
pub proof fn law_a_leap_second_is_a_second(
    later: &Timestamp,
    earlier: &Timestamp,
    window: &TimeDelta,
    passed: bool,
)
    requires
        call_ensures(elapsed_at_least, (later, earlier, window), passed),
        later.spec_secs() / 86_400 == earlier.spec_secs() / 86_400,
    ensures
        ({
            let plain = (later.spec_secs() * 1_000_000_000 + later.spec_nanos()) - (
            earlier.spec_secs() * 1_000_000_000 + earlier.spec_nanos());
            let span = if later.spec_secs() > earlier.spec_secs() && earlier.spec_nanos()
                >= 1_000_000_000 {
                plain + 1_000_000_000
            } else if later.spec_secs() < earlier.spec_secs() && later.spec_nanos()
                >= 1_000_000_000 {
                plain - 1_000_000_000
            } else {
                plain
            };
            passed <==> span >= window.spec_nanos()
        }),
{
}

/// Over days, a leap second that one of two instants lies in counts between them by the second of
/// the day alone.
pub proof fn law_a_leap_second_counts_by_the_second_of_the_day(
    later: &Timestamp,
    earlier: &Timestamp,
    window: &TimeDelta,
    passed: bool,
)
    requires
        call_ensures(elapsed_at_least, (later, earlier, window), passed),
    ensures
        ({
            let plain = (later.spec_secs() * 1_000_000_000 + later.spec_nanos()) - (
            earlier.spec_secs() * 1_000_000_000 + earlier.spec_nanos());
            let (to, from) = (later.spec_secs() % 86_400, earlier.spec_secs() % 86_400);
            let span = if to > from && earlier.spec_nanos() >= 1_000_000_000 {
                plain + 1_000_000_000
            } else if to < from && later.spec_nanos() >= 1_000_000_000 {
                plain - 1_000_000_000
            } else {
                plain
            };
            &&& passed <==> span >= window.spec_nanos()
            &&& elapsed_nanos(*later, *earlier) == span
        }),
{
}

proof fn lemma_big_endian(n: nat, width: nat, i: int)
    requires
        0 <= i < width,
    ensures
        big_endian(n, width).len() == width,
        big_endian(n, width)[i] == n as int / pow(256, (width - 1 - i) as nat) % 256,
    decreases width,
{
    reveal(pow);
    let shorter = (width - 1) as nat;
    lemma_big_endian_len(n / 256, shorter);
    if i < shorter {
        lemma_big_endian(n / 256, shorter, i);
        let p = pow(256, (shorter - 1 - i) as nat);
        lemma_pow_positive(256, (shorter - 1 - i) as nat);
        assert(pow(256, (width - 1 - i) as nat) == 256 * p);
        lemma_div_denominator(n as int, 256, p);
    } else {
        assert(pow(256, 0) == 1);
    }
}

proof fn lemma_big_endian_len(n: nat, width: nat)
    ensures
        big_endian(n, width).len() == width,
    decreases width,
{
    if width > 0 {
        lemma_big_endian_len(n / 256, (width - 1) as nat);
    }
}

/// The bytes of an identifier are those of its number, the most significant first.
pub proof fn law_the_bytes_of_an_id(id: Uuid, bytes: [u8; 16], i: int)
    requires
        call_ensures(Uuid::as_bytes, (&id,), bytes),
        0 <= i < 16,
    ensures
        bytes@.len() == 16,
        bytes@[i] == id.bits as int / pow(256, (15 - i) as nat) % 256,
        bytes@ == id.spec_bytes(),
{
    lemma_big_endian(id.bits as nat, 16, i);
}

/// The place, in the text of an identifier, of its digit at `i`: a hyphen stands behind the eighth,
/// twelfth, sixteenth and twentieth digit.
pub open spec fn digit_place(i: int) -> int {
    i + (if i >= 20 {
        4int
    } else if i >= 16 {
        3
    } else if i >= 12 {
        2
    } else if i >= 8 {
        1
    } else {
        0
    })
}

/// The text of an identifier has the 32 hexadecimal digits of its number, in lower case and the most
/// significant first, in groups of 8, 4, 4, 4 and 12.
pub proof fn law_the_text_of_an_id(id: Uuid, text: String, i: int)
    requires
        call_ensures(Uuid::text, (&id,), text),
        0 <= i < 32,
    ensures
        text@.len() == 36,
        text@[8] == '-' && text@[13] == '-' && text@[18] == '-' && text@[23] == '-',
        ({
            let d = id.bits as int / pow(16, (31 - i) as nat) % 16;
            &&& d < 10 ==> text@[digit_place(i)] as int == '0' as int + d
            &&& d >= 10 ==> text@[digit_place(i)] as int == 'a' as int + (d - 10)
        }),
        text@ == id.spec_text(),
{
    lemma_hex_len(id.bits as nat, 32);
    lemma_hex_digits(id.bits as nat, 32, i);
    assert(text@[digit_place(i)] == hex(id.bits as nat, 32)[i]);
}

/// A number in decimal has its digits, the most significant first and not zero unless it is the
/// only one.
pub proof fn law_decimal_digits(n: nat, i: int)
    requires
        0 <= i < decimal(n).len(),
    ensures
        decimal(n)[i] as int == '0' as int + n as int / pow(10, (decimal(n).len() - 1 - i) as nat)
            % 10,
        decimal(n).len() > 1 ==> decimal(n)[0] != '0',
        n < pow(10, decimal(n).len()),
    decreases n,
{
    reveal(pow);
    let text = decimal(n);
    if n >= 10 {
        let shorter = decimal(n / 10);
        lemma_decimal_len(n / 10);
        law_decimal_digits(n / 10, 0);
        assert(text[0] == shorter[0]);
        assert(text.len() == shorter.len() + 1);
        let all = pow(10, shorter.len());
        assert(pow(10, text.len()) == 10 * all);
        if shorter.len() == 1 {
            assert(pow(10, 0) == 1);
            assert(pow(10, 1) == 10);
            assert(n / 10 < 10);
        }
        if i < shorter.len() {
            law_decimal_digits(n / 10, i);
            let e = (shorter.len() - 1 - i) as nat;
            let p = pow(10, e);
            lemma_pow_positive(10, e);
            assert(pow(10, (text.len() - 1 - i) as nat) == 10 * p);
            lemma_div_denominator(n as int, 10, p);
            assert(text[i] == shorter[i]);
        } else {
            assert(pow(10, 0) == 1);
        }
    } else {
        assert(pow(10, 0) == 1);
        assert(pow(10, 1) == 10);
    }
}

proof fn lemma_decimal_len(n: nat)
    ensures
        decimal(n).len() > 0,
    decreases n,
{
    if n >= 10 {
        lemma_decimal_len(n / 10);
    }
}

/// The failures of the vision layer in words.
pub proof fn law_vision_failures_in_words(error: VisionError, message: String)
    requires
        call_ensures(VisionError::message, (&error,), message),
    ensures
        message@ == error.spec_message(),
        error matches VisionError::ModelLoadFailed(s) ==> message@ == "model load failed: "@ + s@,
        error matches VisionError::InferenceFailed(s) ==> message@ == "inference failed: "@ + s@,
        error matches VisionError::UnexpectedOutputShape { expected, got } ==> message@
            == "unexpected output shape: expected "@ + expected@ + ", got "@ + got@,
{
}

/// An engine is had for any path, and finds nothing in any picture.
pub proof fn law_the_model_finds_nothing_yet(
    path: &str,
    made: Result<VisionEngine, VisionError>,
    engine: &VisionEngine,
    image: &DynamicImage,
    found: Result<Vec<RawDetection>, VisionError>,
)
    requires
        call_ensures(VisionEngine::new, (path,), made),
        call_ensures(VisionEngine::infer, (engine, image), found),
    ensures
        made is Ok,
        found is Ok && found->Ok_0@.len() == 0,
{
}

} // verus!
