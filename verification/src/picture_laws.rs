//! What holds of the guard before the reader of pictures, told by the bytes of a file.

use image::DynamicImage;
use vstd::prelude::*;

use crate::picture::{
    bytes_decide, can_be_read, frame_header, has_lone_scan, has_marker, has_triple_sampling, is_jpeg,
    is_marker, is_png, picture_refusal, png_clash, read_picture, reader_gives, u16_at, u32_at,
};
use crate::routes::{analyze_frame, base64_decoded, ErrorReply, FrameAnalysis, IngestFrameRequest};
use crate::routes_laws::{logged, replies};
use crate::vision::VisionEngine;

verus! {

/// Whether four bytes from `i` on are these.
pub open spec fn spells(bytes: Seq<u8>, i: int, a: u8, b: u8, c: u8, d: u8) -> bool {
    &&& 0 <= i && i + 3 < bytes.len()
    &&& bytes[i] == a && bytes[i + 1] == b && bytes[i + 2] == c && bytes[i + 3] == d
}

/// Whether a header of a PNG file is at `i`, behind its length, that says that pixels are palette
/// entries: `IHDR`, and color type 3.
pub open spec fn has_indexed_header(bytes: Seq<u8>, i: int) -> bool {
    spells(bytes, i, 0x49, 0x48, 0x44, 0x52) && i + 13 < bytes.len() && bytes[i + 13] == 3
}

/// Whether a palette of a PNG file is at `i`, behind its length, that is no whole number of colors
/// or has more than 256: `PLTE`.
pub open spec fn has_broken_palette(bytes: Seq<u8>, i: int) -> bool {
    &&& i >= 4 && spells(bytes, i, 0x50, 0x4c, 0x54, 0x45)
    &&& {
        let length = 0x100_0000 * bytes[i - 4] + 0x1_0000 * bytes[i - 3] + 0x100 * bytes[i - 2]
            + bytes[i - 1];
        length % 3 != 0 || length > 3 * 256
    }
}

/// Whether the header of a frame of a JPEG file is at `i`, behind its marker, that is lossless with
/// samples and pixels of different sizes: one component of less than a byte, or several of another
/// size than a byte. The file has an end.
pub open spec fn has_lossless_fault(bytes: Seq<u8>, i: int) -> bool {
    &&& 2 <= i && i + 7 < bytes.len()
    &&& bytes[i - 2] == 0xff && bytes[i - 1] == 0xc3
    &&& 2 <= bytes[i + 2] <= 16 && bytes[i + 2] != 8
    &&& bytes[i + 7] == 1 && bytes[i + 2] < 8 || bytes[i + 7] == 3 || bytes[i + 7] == 4
    &&& exists|e: int| i <= e < bytes.len() - 1 && #[trigger] bytes[e] == 0xff && bytes[e + 1] == 0xd9
}

/// Whether the header of a frame of a JPEG file is at `i`, behind its marker, with more than 65528
/// lines, or as many columns of three samples, and a scan of one component alone comes after it.
pub open spec fn has_size_fault(bytes: Seq<u8>, i: int) -> bool {
    &&& 2 <= i && i + 7 < bytes.len()
    &&& bytes[i - 2] == 0xff && 0xc0 <= bytes[i - 1] <= 0xc2
    &&& {
        ||| 0x100 * bytes[i + 3] + bytes[i + 4] > 65528
        ||| 0x100 * bytes[i + 5] + bytes[i + 6] > 65528 && exists|c: int|
            0 <= c < bytes[i + 7] && i + 9 + 3 * c < bytes.len() && 0x30 <= (#[trigger] bytes[i + 9
                + 3 * c]) <= 0x3f
    }
    &&& exists|s: int|
        i <= s < bytes.len() - 4 && #[trigger] bytes[s] == 0xff && bytes[s + 1] == 0xda && bytes[s
            + 4] == 1
}

/// Whether the header of a frame of a JPEG file is at `i`, behind its marker, with more than 128
/// columns.
pub open spec fn has_wide_frame(bytes: Seq<u8>, i: int) -> bool {
    &&& 2 <= i && i + 7 < bytes.len()
    &&& bytes[i - 2] == 0xff && 0xc0 <= bytes[i - 1] <= 0xc2
    &&& 0x100 * bytes[i + 5] + bytes[i + 6] > 128
}

proof fn lemma_png(bytes: Seq<u8>, i: int, indexed: bool)
    requires
        0 <= i,
        png_clash(bytes, i, indexed),
    ensures
        indexed || exists|h: int| has_indexed_header(bytes, h),
        exists|p: int| has_broken_palette(bytes, p),
    decreases
            if i < bytes.len() {
                bytes.len() - i
            } else {
                0
            },
{
    let length = u32_at(bytes, i);
    let kind = u32_at(bytes, i + 4);
    if kind == 0x504c_5445 && indexed && length > 0 {
        assert(has_broken_palette(bytes, i + 4));
    } else if kind == 0x4948_4452 && length > 0 && i + 17 < bytes.len() {
        assert(has_indexed_header(bytes, i + 4));
        lemma_png(bytes, i + 12 + length, true);
    } else {
        lemma_png(bytes, i + 12 + length, indexed);
    }
}

proof fn lemma_frame_header(bytes: Seq<u8>, i: int)
    requires
        0 <= i,
        frame_header(bytes, i) is Some,
    ensures
        ({
            let h = frame_header(bytes, i)->0;
            2 <= h <= bytes.len() && bytes[h - 2] == 0xff && 0xc0 <= bytes[h - 1] <= 0xc3
        }),
    decreases
            if i < bytes.len() {
                bytes.len() - i
            } else {
                0
            },
{
    if i + 1 < bytes.len() {
        if !is_marker(bytes, i + 1) {
            lemma_frame_header(bytes, i + 1);
        } else if !(0xc0 <= bytes[i + 1] <= 0xc3) {
            lemma_frame_header(bytes, i + 2 + u16_at(bytes, i + 2));
        }
    }
}

/// The guard refuses nothing that is not broken. A file that it refuses starts as a PNG file does
/// and has a header of color type 3 and a broken palette, or starts as a JPEG file does and has a
/// frame header with a fault. For any other file the verdict is the reader's own.
pub proof fn law_the_guard_refuses_only_broken_files(bytes: &[u8], ok: bool)
    requires
        call_ensures(can_be_read, (bytes,), ok),
        !ok,
    ensures
        ({
            let b = bytes@;
            ||| {
                &&& spells(b, 0, 0x89, 0x50, 0x4e, 0x47) && spells(b, 4, 0x0d, 0x0a, 0x1a, 0x0a)
                &&& exists|h: int| has_indexed_header(b, h)
                &&& exists|p: int| has_broken_palette(b, p)
            }
            ||| {
                &&& b.len() >= 3 && b[0] == 0xff && b[1] == 0xd8 && b[2] == 0xff
                &&& (exists|f: int| has_lossless_fault(b, f)) || (exists|f: int|
                    has_size_fault(b, f))
            }
        }),
{
    let b = bytes@;
    if is_png(b) && png_clash(b, 8, false) {
        lemma_png(b, 8, false);
    } else {
        lemma_frame_header(b, 2);
        let f = frame_header(b, 2)->0;
        if b[f - 1] == 0xc3 {
            assert(has_marker(b, f, 0xd9));
            let e = choose|e: int|
                f <= e < b.len() - 1 && #[trigger] b[e] == 0xff && b[e + 1] == 0xd9;
            assert(b[e] == 0xff);
            assert(has_lossless_fault(b, f));
        } else {
            assert(has_lone_scan(b, f));
            let s = choose|s: int|
                f <= s < b.len() - 4 && #[trigger] b[s] == 0xff && b[s + 1] == 0xda && b[s + 4]
                    == 1;
            assert(b[s] == 0xff);
            if u16_at(b, f + 3) <= 65528 {
                assert(has_triple_sampling(b, f));
                let c = choose|c: int|
                    0 <= c < b[f + 7] && f + 9 + 3 * c < b.len() && #[trigger] b[f + 9 + 3 * c] / 16
                        == 3;
                assert(0x30 <= b[f + 9 + 3 * c] <= 0x3f);
            }
            assert(has_size_fault(b, f));
        }
    }
}

/// A PNG file whose header does not have color type 3 is never refused by the guard.
pub proof fn law_png_files_without_palette_entries_pass(bytes: &[u8], ok: bool)
    requires
        call_ensures(can_be_read, (bytes,), ok),
        spells(bytes@, 0, 0x89, 0x50, 0x4e, 0x47),
        spells(bytes@, 4, 0x0d, 0x0a, 0x1a, 0x0a),
        spells(bytes@, 12, 0x49, 0x48, 0x44, 0x52),
        bytes@[8] != 0 || bytes@[9] != 0 || bytes@[10] != 0 || bytes@[11] != 0,
        bytes@.len() <= 25 || bytes@[25] != 3,
    ensures
        ok,
{
    let b = bytes@;
    assert(u32_at(b, 8) > 0);
    assert(u32_at(b, 12) == 0x4948_4452);
    if png_clash(b, 8, false) {
        if b.len() <= 25 {
            assert(!png_clash(b, 8 + 12 + u32_at(b, 8), false));
        }
    }
}

/// A file that starts neither as a PNG nor as a JPEG file does is never refused by the guard, nor is
/// one without a fault in a frame header or a palette.
pub proof fn law_other_files_pass(bytes: &[u8], ok: bool)
    requires
        call_ensures(can_be_read, (bytes,), ok),
    ensures
        bytes@.len() < 3 ==> ok,
        bytes@.len() > 0 && bytes@[0] != 0x89 && bytes@[0] != 0xff ==> ok,
        bytes@.len() > 0 && bytes@[0] == 0xff && (forall|f: int|
            !#[trigger] has_lossless_fault(bytes@, f)) && (forall|f: int|
            !#[trigger] has_size_fault(bytes@, f)) ==> ok,
        bytes@.len() > 0 && bytes@[0] == 0x89 && (forall|p: int|
            !#[trigger] has_broken_palette(bytes@, p)) ==> ok,
{
    if !ok {
        law_the_guard_refuses_only_broken_files(bytes, ok);
    }
}

/// Of every file that the guard lets through, the reader's verdict is the answer, word for word,
/// unless the file has a JPEG frame of more than 128 columns; of such a file too, none is taken that
/// the reader refuses.
pub proof fn law_the_verdict_is_the_readers(
    bytes: &[u8],
    ok: bool,
    picture: Result<DynamicImage, String>,
)
    requires
        call_ensures(can_be_read, (bytes,), ok),
        call_ensures(read_picture, (bytes,), picture),
    ensures
        ok && (forall|f: int| !#[trigger] has_wide_frame(bytes@, f)) ==> {
            &&& picture is Ok <==> picture_refusal(bytes@) is None
            &&& picture matches Err(e) ==> picture_refusal(bytes@) == Some(e@)
        },
        ok && bytes@.len() > 0 && bytes@[0] != 0xff ==> {
            &&& picture is Ok <==> picture_refusal(bytes@) is None
            &&& picture matches Err(e) ==> picture_refusal(bytes@) == Some(e@)
        },
        ok && picture is Ok ==> picture_refusal(bytes@) is None,
        !ok ==> picture is Err && picture->Err_0@ == "the header of the picture contradicts itself"@,
        bytes@.len() == 0 ==> picture is Err,
        bytes@.len() > 0 && bytes@[0] != 0x89 && bytes@[0] != 0xff ==> picture is Err,
{
    lemma_decided(bytes@);
}

proof fn lemma_decided(bytes: Seq<u8>)
    ensures
        (forall|f: int| !#[trigger] has_wide_frame(bytes, f)) ==> bytes_decide(bytes),
{
    if is_jpeg(bytes) && frame_header(bytes, 2) is Some {
        lemma_frame_header(bytes, 2);
        let f = frame_header(bytes, 2)->0;
        if !bytes_decide(bytes) {
            assert(has_wide_frame(bytes, f));
        }
    }
}

/// A frame is answered by what the reader makes of its bytes. Of a PNG frame whose header does not
/// have color type 3, and of any other that the guard lets through and that has no JPEG frame of
/// more than 128 columns, it is looked at if and only if the reader reads it; of every frame that the
/// guard lets through, the answer is what the reader gave.
pub proof fn law_frames_are_answered_by_the_reader(
    vision: &VisionEngine,
    req: &IngestFrameRequest,
    result: Result<FrameAnalysis, ErrorReply>,
    bytes: &[u8],
    ok: bool,
)
    requires
        call_ensures(analyze_frame, (vision, req), result),
        base64_decoded(req.frame_base64@) == Ok::<Seq<u8>, Seq<char>>(bytes@),
        call_ensures(can_be_read, (bytes,), ok),
    ensures
        ok && ((forall|f: int| !#[trigger] has_wide_frame(bytes@, f)) || (bytes@.len() > 0
            && bytes@[0] != 0xff)) ==> {
            &&& result is Ok <==> picture_refusal(bytes@) is None
            &&& picture_refusal(bytes@) matches Some(detail) ==> replies(
                result->Err_0,
                400,
                "invalid_image_data"@,
                logged("invalid_image_data"@, detail),
            )
        },
        result is Ok ==> ok && picture_refusal(bytes@) is None,
        result is Ok ==> result->Ok_0.detections@.len() == 0 && result->Ok_0.overlay_boxes@.len()
            == 0,
        ok ==> exists|loaded: Result<DynamicImage, String>| #[trigger]
            reader_gives(bytes@, loaded) && match loaded {
                Ok(_) => result is Ok,
                Err(e) => result is Err && replies(
                    result->Err_0,
                    400,
                    "invalid_image_data"@,
                    logged("invalid_image_data"@, e@),
                ),
            },
        !ok ==> replies(
            result->Err_0,
            400,
            "invalid_image_data"@,
            logged("invalid_image_data"@, "the header of the picture contradicts itself"@),
        ),
{
    lemma_decided(bytes@);
    reveal(Seq::filter);
}

} // verus!
