//! Pictures as clients send them: which of them the reader must not be given, and how the others
//! are read.

use image::DynamicImage;
use vstd::prelude::*;

verus! {

/// A decoded picture.
#[verifier::external_type_specification]
#[verifier::external_body]
pub struct ExDynamicImage(image::DynamicImage);

/// The big-endian number in the two bytes from `i` on.
pub open spec fn u16_at(bytes: Seq<u8>, i: int) -> int {
    0x100 * bytes[i] + bytes[i + 1]
}

/// The big-endian number in the four bytes from `i` on.
pub open spec fn u32_at(bytes: Seq<u8>, i: int) -> int {
    0x1_0000 * u16_at(bytes, i) + u16_at(bytes, i + 2)
}

/// Whether the bytes start as a JPEG file does.
pub open spec fn is_jpeg(bytes: Seq<u8>) -> bool {
    bytes.len() >= 3 && bytes[0] == 0xff && bytes[1] == 0xd8 && bytes[2] == 0xff
}

/// Whether the byte at `i` names a JPEG marker: it follows a fill byte and is neither one itself
/// nor a stuffed zero.
pub open spec fn is_marker(bytes: Seq<u8>, i: int) -> bool {
    bytes[i - 1] == 0xff && bytes[i] != 0xff && bytes[i] != 0
}

/// Whether a marker opens a segment that may stand before the frame header: tables, a restart
/// interval, application data or a comment.
pub open spec fn opens_preamble(marker: u8) -> bool {
    marker == 0xc4 || marker == 0xdb || marker == 0xdd || 0xe0 <= marker <= 0xef || marker == 0xfe
}

/// The place of the length field of a JPEG file's first frame header, looked for from `i` on; the
/// byte before it is the frame's marker. `None` where the reader comes to none that it decodes.
pub open spec fn frame_header(bytes: Seq<u8>, i: int) -> Option<int>
    decreases
            if i < bytes.len() {
                bytes.len() - i
            } else {
                0
            },
{
    if i + 1 >= bytes.len() {
        None
    } else if !is_marker(bytes, i + 1) {
        frame_header(bytes, i + 1)
    } else if 0xc0 <= bytes[i + 1] <= 0xc3 {
        Some(i + 2)
    } else if opens_preamble(bytes[i + 1]) && i + 3 < bytes.len() && u16_at(bytes, i + 2) >= 2 {
        frame_header(bytes, i + 2 + u16_at(bytes, i + 2))
    } else {
        None
    }
}

/// Whether a JPEG marker stands somewhere from `i` on.
pub open spec fn has_marker(bytes: Seq<u8>, i: int, marker: u8) -> bool {
    exists|j: int| i <= j < bytes.len() - 1 && #[trigger] bytes[j] == 0xff && bytes[j + 1] == marker
}

/// Whether a scan of one component alone starts somewhere from `i` on.
pub open spec fn has_lone_scan(bytes: Seq<u8>, i: int) -> bool {
    exists|j: int|
        i <= j < bytes.len() - 4 && #[trigger] bytes[j] == 0xff && bytes[j + 1] == 0xda && bytes[j
            + 4] == 1
}

/// Whether some component of the frame whose length field is at `i` is sampled three times in a
/// row.
pub open spec fn has_triple_sampling(bytes: Seq<u8>, i: int) -> bool {
    exists|c: int|
        0 <= c < bytes[i + 7] && i + 9 + 3 * c < bytes.len() && #[trigger] bytes[i + 9 + 3 * c] / 16
            == 3
}

/// Whether the header of a lossless frame, whose length field is at `i`, promises pixels of
/// another size than its samples are decoded to. Samples take one byte at a depth of 8 bits and two
/// at any other; pixels are promised two bytes for one component of more than 8 bits, and one byte
/// for each component otherwise. That shows when the whole file has been decoded, up to the marker
/// of its end.
pub open spec fn lossless_clash(bytes: Seq<u8>, i: int) -> bool {
    let depth = bytes[i + 2];
    let components = bytes[i + 7];
    &&& has_marker(bytes, i, 0xd9)
    &&& {
        ||| components == 1 && 2 <= depth <= 7
        ||| (components == 3 || components == 4) && 2 <= depth <= 16 && depth != 8
    }
}

/// Whether the frame, whose length field is at `i`, has more lines or columns than the decoder
/// counts in steps of 8 with 16 bits. It counts so where a scan holds one component alone: the
/// lines always, and the columns up to a number that is too large only of a component that is
/// sampled three times in a row.
pub open spec fn size_clash(bytes: Seq<u8>, i: int) -> bool {
    &&& has_lone_scan(bytes, i)
    &&& {
        ||| u16_at(bytes, i + 3) > 65528
        ||| u16_at(bytes, i + 5) > 65528 && has_triple_sampling(bytes, i)
    }
}

/// Whether the first frame header of a JPEG file has one of these clashes.
pub open spec fn jpeg_clash(bytes: Seq<u8>) -> bool {
    frame_header(bytes, 2) matches Some(i) && i + 7 < bytes.len() && if bytes[i - 1] == 0xc3 {
        lossless_clash(bytes, i)
    } else {
        size_clash(bytes, i)
    }
}

/// Whether the bytes start as a PNG file does.
pub open spec fn is_png(bytes: Seq<u8>) -> bool {
    bytes.len() >= 8 && u32_at(bytes, 0) == 0x8950_4e47 && u32_at(bytes, 4) == 0x0d0a_1a0a
}

/// Whether a PNG palette of this many bytes is no whole number of colors, or has more than 256.
pub open spec fn palette_clash(length: int) -> bool {
    length % 3 != 0 || length > 768
}

/// Whether a chunk of a PNG file, by its type, holds image data: `IDAT` or `fdAT`.
pub open spec fn is_image_data(kind: int) -> bool {
    kind == 0x4944_4154 || kind == 0x6664_4154
}

/// Whether image data follows in a PNG file from the chunk at `i` on. The chunk `IEND` ends it.
pub open spec fn data_follows(bytes: Seq<u8>, i: int) -> bool
    decreases
            if i < bytes.len() {
                bytes.len() - i
            } else {
                0
            },
{
    if i + 8 > bytes.len() {
        false
    } else {
        let kind = u32_at(bytes, i + 4);
        is_image_data(kind) || (kind != 0x4945_4e44 && data_follows(
            bytes,
            i + 12 + u32_at(bytes, i),
        ))
    }
}

/// Whether a PNG file, from the chunk at `i` on, has such a palette before its image data.
/// `indexed` tells whether its header has been passed, and says that pixels are palette entries. A
/// header that says otherwise ends the search. The chunks looked at are `PLTE` and `IHDR`.
pub open spec fn png_clash(bytes: Seq<u8>, i: int, indexed: bool) -> bool
    decreases
            if i < bytes.len() {
                bytes.len() - i
            } else {
                0
            },
{
    if i + 8 > bytes.len() {
        false
    } else {
        let length = u32_at(bytes, i);
        let kind = u32_at(bytes, i + 4);
        let next = i + 12 + length;
        if is_image_data(kind) || kind == 0x4945_4e44 {
            false
        } else if kind == 0x504c_5445 && indexed && length > 0 {
            palette_clash(length) && data_follows(bytes, next)
        } else if kind == 0x4948_4452 && length > 0 && i + 17 < bytes.len() {
            bytes[i + 17] == 3 && png_clash(bytes, next, true)
        } else {
            png_clash(bytes, next, indexed)
        }
    }
}

/// Whether the bytes belong to the files on which `image::load_from_memory` may panic: a lossless
/// JPEG whose pixels and samples differ in size; a JPEG of so many lines or columns that counting
/// them overflows, which panics where arithmetic is checked; or a PNG of palette entries with a
/// broken palette. In such a file the reader may come to an error before it comes to the panic.
pub open spec fn reader_panics(bytes: Seq<u8>) -> bool {
    ||| is_jpeg(bytes) && jpeg_clash(bytes)
    ||| is_png(bytes) && png_clash(bytes, 8, false)
}

/// Whether the bytes alone decide how reading them ends. They do not for a JPEG file of more than
/// 128 columns that is not lossless: such a file is decoded on threads, and fails where the system
/// has none left.
pub open spec fn bytes_decide(bytes: Seq<u8>) -> bool {
    is_jpeg(bytes) ==> match frame_header(bytes, 2) {
        Some(i) => bytes[i - 1] == 0xc3 || i + 7 >= bytes.len() || u16_at(bytes, i + 5) <= 128,
        None => true,
    }
}

fn read_u16(bytes: &[u8], i: usize) -> (n: u16)
    requires
        i + 1 < bytes.len(),
    ensures
        n == u16_at(bytes@, i as int),
{
    bytes[i] as u16 * 0x100 + bytes[i + 1] as u16
}

fn read_u32(bytes: &[u8], i: usize) -> (n: u32)
    requires
        i + 3 < bytes.len(),
    ensures
        n == u32_at(bytes@, i as int),
{
    read_u16(bytes, i) as u32 * 0x1_0000 + read_u16(bytes, i + 2) as u32
}

fn find_frame_header(bytes: &[u8]) -> (header: Option<usize>)
    requires
        is_jpeg(bytes@),
    ensures
        match header {
            Some(h) => frame_header(bytes@, 2) == Some(h as int) && 4 <= h <= bytes@.len(),
            None => frame_header(bytes@, 2) is None,
        },
{
    let mut i: usize = 2;
    while bytes.len() - i >= 2
        invariant
            2 <= i <= bytes@.len(),
            frame_header(bytes@, 2) == frame_header(bytes@, i as int),
        decreases bytes.len() - i,
    {
        let marker: u8 = bytes[i + 1];
        if bytes[i] != 0xff || marker == 0xff || marker == 0 {
            i = i + 1;
        } else if 0xc0 <= marker && marker <= 0xc3 {
            return Some(i + 2);
        } else if (marker == 0xc4 || marker == 0xdb || marker == 0xdd || (0xe0 <= marker && marker
            <= 0xef) || marker == 0xfe) && bytes.len() - i > 3 {
            let length: usize = read_u16(bytes, i + 2) as usize;
            if length < 2 || bytes.len() - i - 2 < length {
                assert(length >= 2 ==> frame_header(bytes@, i + 2 + length) is None);
                return None;
            }
            i = i + 2 + length;
        } else {
            return None;
        }
    }
    None
}

fn find_marker(bytes: &[u8], from: usize, marker: u8) -> (found: bool)
    requires
        from <= bytes@.len(),
    ensures
        found == has_marker(bytes@, from as int, marker),
{
    let mut i: usize = from;
    while bytes.len() - i >= 2
        invariant
            from <= i <= bytes@.len(),
            forall|j: int|
                from <= j < i && j < bytes@.len() - 1 ==> !(#[trigger] bytes@[j] == 0xff && bytes@[j
                    + 1] == marker),
        decreases bytes.len() - i,
    {
        if bytes[i] == 0xff && bytes[i + 1] == marker {
            assert(bytes@[i as int] == 0xff && bytes@[i + 1] == marker);
            return true;
        }
        i = i + 1;
    }
    false
}

fn find_lone_scan(bytes: &[u8], from: usize) -> (found: bool)
    requires
        from <= bytes@.len(),
    ensures
        found == has_lone_scan(bytes@, from as int),
{
    let mut i: usize = from;
    while bytes.len() - i >= 5
        invariant
            from <= i <= bytes@.len(),
            forall|j: int|
                from <= j < i && j < bytes@.len() - 4 ==> !(#[trigger] bytes@[j] == 0xff && bytes@[j
                    + 1] == 0xda && bytes@[j + 4] == 1),
        decreases bytes.len() - i,
    {
        if bytes[i] == 0xff && bytes[i + 1] == 0xda && bytes[i + 4] == 1 {
            assert(bytes@[i as int] == 0xff && bytes@[i + 1] == 0xda && bytes@[i + 4] == 1);
            return true;
        }
        i = i + 1;
    }
    false
}

fn find_triple_sampling(bytes: &[u8], i: usize) -> (found: bool)
    requires
        i + 7 < bytes.len(),
    ensures
        found == has_triple_sampling(bytes@, i as int),
{
    let components: usize = bytes[i + 7] as usize;
    let mut c: usize = 0;
    while c < components && bytes.len() - i - 8 > 1 + 3 * c
        invariant
            c <= components <= 255,
            i + 7 < bytes@.len(),
            components == bytes@[i + 7],
            forall|d: int|
                0 <= d < c && i + 9 + 3 * d < bytes@.len() ==> #[trigger] bytes@[i + 9 + 3 * d] / 16
                    != 3,
        decreases components - c,
    {
        if bytes[i + 9 + 3 * c] / 16 == 3 {
            assert(bytes@[i + 9 + 3 * c] / 16 == 3);
            return true;
        }
        c = c + 1;
    }
    false
}

fn has_jpeg_clash(bytes: &[u8]) -> (clash: bool)
    requires
        is_jpeg(bytes@),
    ensures
        clash == jpeg_clash(bytes@),
{
    let i: usize = match find_frame_header(bytes) {
        Some(h) => h,
        None => {
            return false;
        },
    };
    if bytes.len() - i < 8 {
        return false;
    }
    if bytes[i - 1] == 0xc3 {
        let depth: u8 = bytes[i + 2];
        let components: u8 = bytes[i + 7];
        ((components == 1 && 2 <= depth && depth <= 7) || ((components == 3 || components == 4) && 2
            <= depth && depth <= 16 && depth != 8)) && find_marker(bytes, i, 0xd9)
    } else {
        (read_u16(bytes, i + 3) > 65528 || (read_u16(bytes, i + 5) > 65528 && find_triple_sampling(
            bytes,
            i,
        ))) && find_lone_scan(bytes, i)
    }
}

fn has_data(bytes: &[u8], from: usize) -> (found: bool)
    requires
        from <= bytes@.len(),
    ensures
        found == data_follows(bytes@, from as int),
{
    let mut i: usize = from;
    while bytes.len() - i >= 8
        invariant
            i <= bytes@.len(),
            data_follows(bytes@, from as int) == data_follows(bytes@, i as int),
        decreases bytes.len() - i,
    {
        let length: u32 = read_u32(bytes, i);
        let kind: u32 = read_u32(bytes, i + 4);
        if kind == 0x4944_4154 || kind == 0x6664_4154 {
            return true;
        }
        if kind == 0x4945_4e44 {
            return false;
        }
        let left: u64 = (bytes.len() - i) as u64;
        if left < 12 + length as u64 {
            assert(!data_follows(bytes@, i + 12 + length));
            return false;
        }
        i = i + 12 + length as usize;
    }
    false
}

fn has_png_clash(bytes: &[u8]) -> (clash: bool)
    requires
        is_png(bytes@),
    ensures
        clash == png_clash(bytes@, 8, false),
{
    let mut i: usize = 8;
    let mut indexed: bool = false;
    while bytes.len() - i >= 8
        invariant
            8 <= i <= bytes@.len(),
            png_clash(bytes@, 8, false) == png_clash(bytes@, i as int, indexed),
        decreases bytes.len() - i,
    {
        let length: u32 = read_u32(bytes, i);
        let kind: u32 = read_u32(bytes, i + 4);
        if kind == 0x4944_4154 || kind == 0x6664_4154 || kind == 0x4945_4e44 {
            return false;
        }
        let left: u64 = (bytes.len() - i) as u64;
        if left < 12 + length as u64 {
            assert(!png_clash(bytes@, i + 12 + length, true));
            assert(!png_clash(bytes@, i + 12 + length, false));
            assert(!data_follows(bytes@, i + 12 + length));
            return false;
        }
        let next: usize = i + 12 + length as usize;
        if kind == 0x504c_5445 && indexed && length > 0 {
            return (length % 3 != 0 || length > 768) && has_data(bytes, next);
        }
        if kind == 0x4948_4452 && length > 0 && bytes.len() - i > 17 {
            if bytes[i + 17] != 3 {
                return false;
            }
            indexed = true;
        }
        i = next;
    }
    false
}

/// Whether the reader can be given the bytes.
pub fn can_be_read(bytes: &[u8]) -> (ok: bool)
    ensures
        ok == !reader_panics(bytes@),
{
    if bytes.len() >= 3 && bytes[0] == 0xff && bytes[1] == 0xd8 && bytes[2] == 0xff {
        !has_jpeg_clash(bytes)
    } else if bytes.len() >= 8 && read_u32(bytes, 0) == 0x8950_4e47 && read_u32(bytes, 4)
        == 0x0d0a_1a0a {
        !has_png_clash(bytes)
    } else {
        true
    }
}

/// The text of the error with which the reader refuses bytes when it has the threads it asks for;
/// `None` where it reads them then.
pub uninterp spec fn picture_refusal(bytes: Seq<u8>) -> Option<Seq<char>>;

/// `image::load_from_memory`, the error as its `Display` text. It tells a file's format from its
/// first bytes, and of the formats it can tell apart only JPEG and PNG are built in. Where the
/// bytes alone decide, they decide whether they are read, and the text where they are not. A JPEG
/// file that is decoded on threads may fail for want of one; that only ever turns success into
/// failure, so bytes that were read are never ones that the reader refuses. When that happens is
/// left open, and so is the picture: the pixels of a JPEG file are computed with vector
/// instructions where the processor has them.
#[verifier::external_body]
fn load_image(bytes: &[u8]) -> (loaded: Result<DynamicImage, String>)
    requires
        !reader_panics(bytes@),
    ensures
        !is_jpeg(bytes@) && !is_png(bytes@) ==> loaded is Err,
        loaded is Ok ==> picture_refusal(bytes@) is None,
        bytes_decide(bytes@) ==> match loaded {
            Ok(_) => picture_refusal(bytes@) is None,
            Err(e) => picture_refusal(bytes@) == Some(e@),
        },
{
    image::load_from_memory(bytes).map_err(|e| e.to_string())
}

/// What is said of bytes that the reader must not be given.
pub open spec fn broken_header() -> Seq<char> {
    "the header of the picture contradicts itself"@
}

/// What is wrong with bytes that are to be a picture, when the reader has the threads it asks for.
pub open spec fn picture_fault(bytes: Seq<u8>) -> Option<Seq<char>> {
    if reader_panics(bytes) {
        Some(broken_header())
    } else {
        picture_refusal(bytes)
    }
}

/// Whether this is what a call of the reader on the bytes gives. Of a JPEG file that is decoded on
/// threads, two calls may give different things.
pub closed spec fn reader_gives(bytes: Seq<u8>, loaded: Result<DynamicImage, String>) -> bool {
    exists|b: &[u8]| b@ == bytes && #[trigger] call_ensures(load_image, (b,), loaded)
}

/// The picture that bytes hold, or the text of why they hold none.
pub fn read_picture(bytes: &[u8]) -> (picture: Result<DynamicImage, String>)
    ensures
        !is_jpeg(bytes@) && !is_png(bytes@) ==> picture is Err,
        picture is Ok ==> picture_fault(bytes@) is None,
        !reader_panics(bytes@) ==> reader_gives(bytes@, picture),
        reader_panics(bytes@) || bytes_decide(bytes@) ==> match picture {
            Ok(_) => picture_fault(bytes@) is None,
            Err(e) => picture_fault(bytes@) == Some(e@),
        },
{
    if can_be_read(bytes) {
        load_image(bytes)
    } else {
        Err("the header of the picture contradicts itself".to_owned())
    }
}

/// What is answered of bytes that the reader can be given is what a call of the reader gave: nothing
/// else decides.
proof fn law_the_reader_is_asked(
    bytes: &[u8],
    ok: bool,
    picture: Result<DynamicImage, String>,
    given: Result<DynamicImage, String>,
)
    requires
        call_ensures(can_be_read, (bytes,), ok),
        call_ensures(read_picture, (bytes,), picture),
    ensures
        ok ==> exists|b: &[u8]| b@ == bytes@ && #[trigger] call_ensures(load_image, (b,), picture),
        reader_gives(bytes@, given) ==> exists|b: &[u8]|
            b@ == bytes@ && #[trigger] call_ensures(load_image, (b,), given),
{
}

} // verus!
