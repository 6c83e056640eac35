//! The logo, decoded for the window icon and the views.

use vstd::prelude::*;

verus! {

// ---------------------------------------------------------------------------
// Sizes in a PNG file
// ---------------------------------------------------------------------------

/// The number in the four bytes of `file` at `at`, the highest first.
pub open spec fn number_at(file: Seq<u8>, at: int) -> int {
    file[at] * 0x100_0000 + file[at + 1] * 0x1_0000 + file[at + 2] * 0x100 + file[at + 3]
}

/// A chunk of a PNG file starts at `at` and has the type `tag`. It consists of
/// the length of its data, its type, the data and a check sum.
pub open spec fn is_chunk(file: Seq<u8>, at: int, tag: Seq<u8>) -> bool {
    file.subrange(at + 4, at + 8) == tag
}

/// `IHDR`: the width and the height of the picture come first in its data.
pub open spec fn header_tag() -> Seq<u8> {
    seq![0x49, 0x48, 0x44, 0x52]
}

/// `PLTE`: the palette, three bytes for each of at most 256 colours.
pub open spec fn palette_tag() -> Seq<u8> {
    seq![0x50, 0x4c, 0x54, 0x45]
}

/// `acTL`: the number of frames of an animation comes first in its data.
pub open spec fn frames_tag() -> Seq<u8> {
    seq![0x61, 0x63, 0x54, 0x4c]
}

/// `IDAT`: the pixels.
pub open spec fn pixels_tag() -> Seq<u8> {
    seq![0x49, 0x44, 0x41, 0x54]
}

/// The chunk at `at` is no palette of a wrong length, no header of a picture whose
/// pixels, four bytes each, would take 2 GiB or more, and no animation with as
/// many frames as 32 bits can count.
pub open spec fn chunk_fits(file: Seq<u8>, at: int) -> bool {
    &&& is_chunk(file, at, palette_tag()) ==> number_at(file, at) % 3 == 0 && number_at(file, at)
        <= 768
    &&& is_chunk(file, at, header_tag()) && at + 16 <= file.len() ==> number_at(file, at + 8)
        * number_at(file, at + 12) < 0x2000_0000
    &&& is_chunk(file, at, frames_tag()) && at + 12 <= file.len() ==> number_at(file, at + 8)
        != 0xffff_ffff
}

/// Every chunk from `at` up to the pixels, or up to one that is cut off, fits.
pub open spec fn chunks_fit(file: Seq<u8>, at: int) -> bool
    decreases file.len() - at,
    when 0 <= at
{
    if at + 8 > file.len() || is_chunk(file, at, pixels_tag()) {
        true
    } else {
        let next = at + 12 + number_at(file, at);
        chunk_fits(file, at) && (next <= file.len() ==> chunks_fit(file, next))
    }
}

/// The PNG file is shorter than 4 GiB, and every chunk of it up to the pixels
/// fits. The first starts after a signature of eight bytes.
pub open spec fn sizes_fit(file: Seq<u8>) -> bool {
    file.len() <= 0xffff_ffff && chunks_fit(file, 8)
}

fn read_number(file: &[u8], at: usize) -> (r: u32)
    requires
        at + 4 <= file.len(),
    ensures
        r == number_at(file@, at as int),
{
    file[at] as u32 * 0x100_0000 + file[at + 1] as u32 * 0x1_0000 + file[at + 2] as u32 * 0x100
        + file[at + 3] as u32
}

fn has_tag(file: &[u8], at: usize, tag: &[u8]) -> (r: bool)
    requires
        at + 8 <= file.len(),
        tag.len() == 4,
    ensures
        r == is_chunk(file@, at as int, tag@),
{
    let r = file[at + 4] == tag[0] && file[at + 5] == tag[1] && file[at + 6] == tag[2] && file[at
        + 7] == tag[3];
    proof {
        let s = file@.subrange(at + 4, at + 8);
        assert(s[0] == file@[at + 4] && s[1] == file@[at + 5]);
        assert(s[2] == file@[at + 6] && s[3] == file@[at + 7]);
        if r {
            assert(s =~= tag@);
        }
    }
    r
}

fn check_chunk(file: &[u8], at: usize) -> (r: bool)
    requires
        at + 8 <= file.len(),
    ensures
        r == chunk_fits(file@, at as int),
{
    let header: [u8; 4] = [0x49, 0x48, 0x44, 0x52];
    let palette: [u8; 4] = [0x50, 0x4c, 0x54, 0x45];
    let frames: [u8; 4] = [0x61, 0x63, 0x54, 0x4c];
    proof {
        assert(frames@ =~= frames_tag());
        assert(header@ =~= header_tag());
        assert(palette@ =~= palette_tag());
    }
    let n: u32 = read_number(file, at);
    if has_tag(file, at, &palette) && !(n % 3 == 0 && n <= 768) {
        return false;
    }
    if has_tag(file, at, &header) && file.len() - at >= 16 {
        let w: u64 = read_number(file, at + 8) as u64;
        let h: u64 = read_number(file, at + 12) as u64;
        proof {
            assert(w * h <= 0xffff_ffff * 0xffff_ffff) by (nonlinear_arith)
                requires
                    w <= 0xffff_ffff,
                    h <= 0xffff_ffff,
            ;
        }
        if w * h >= 0x2000_0000 {
            return false;
        }
    }
    if has_tag(file, at, &frames) && file.len() - at >= 12 {
        return read_number(file, at + 8) != 0xffff_ffff;
    }
    true
}

/// Is the PNG file shorter than 4 GiB, and does every chunk of it up to the pixels
/// fit?
pub fn check_sizes(file: &[u8]) -> (r: bool)
    ensures
        r == sizes_fit(file@),
{
    let pixels: [u8; 4] = [0x49, 0x44, 0x41, 0x54];
    proof {
        assert(pixels@ =~= pixels_tag());
    }
    let len = file.len();
    if len as u64 > 0xffff_ffff {
        return false;
    }
    let mut at: usize = 8;
    while at <= len && len - at >= 8
        invariant
            len == file.len(),
            len <= 0xffff_ffff,
            pixels@ == pixels_tag(),
            8 <= at,
            sizes_fit(file@) == chunks_fit(file@, at as int),
        decreases len - at,
    {
        if has_tag(file, at, &pixels) {
            return true;
        }
        if !check_chunk(file, at) {
            return false;
        }
        let n: u32 = read_number(file, at);
        let left: usize = len - at;
        if left < 12 || n as u64 > (left - 12) as u64 {
            return true;
        }
        at = at + 12 + n as usize;
    }
    true
}

// ---------------------------------------------------------------------------
// Decoding
// ---------------------------------------------------------------------------

/// The picture in an image file, as `image::load_from_memory` and
/// `DynamicImage::to_rgba8` decode it: its pixels row by row, four bytes each,
/// its width and its height. `None` where the file cannot be decoded.
pub uninterp spec fn rgba_of(file: Seq<u8>) -> Option<(Seq<u8>, u32, u32)>;

/// Calls `image::load_from_memory` and converts the picture with `to_rgba8`.
///
/// Trusted: the outcome is [`rgba_of`] of the file, and a picture of `w` by `h`
/// pixels comes as exactly `4 * w * h` bytes. PNG is the one format that is built
/// in, and [`sizes_fit`] leaves out what its decoder does not cope with on every
/// machine:
/// - It panics on a palette whose length is no multiple of three or more than 768.
/// - 2 GiB of pixels cannot be allocated where addresses have 32 bits.
/// - It adds one to the number of frames (`acTL`), and to the number of each frame
///   as it goes, of which a file below 4 GiB has too few to overflow.
#[verifier::external_body]
fn load_rgba(file: &[u8]) -> (r: Option<(Vec<u8>, u32, u32)>)
    requires
        sizes_fit(file@),
    ensures
        match r {
            Some((rgba, w, h)) => rgba_of(file@) == Some((rgba@, w, h)) && rgba@.len() == 4 * w * h,
            None => rgba_of(file@) is None,
        },
{
    match image::load_from_memory(file) {
        Ok(picture) => {
            let rgba = picture.to_rgba8();
            let (w, h) = rgba.dimensions();
            Some((rgba.into_raw(), w, h))
        },
        Err(_) => None,
    }
}

/// Decodes the logo: its pixels, four bytes each, its width and its height.
/// `None` where the file cannot be decoded, or its sizes do not fit.
pub fn decode(file: &[u8]) -> (r: Option<(Vec<u8>, u32, u32)>)
    ensures
        !sizes_fit(file@) ==> r is None,
        sizes_fit(file@) ==> match r {
            Some((rgba, w, h)) => rgba_of(file@) == Some((rgba@, w, h)) && rgba@.len() == 4 * w * h,
            None => rgba_of(file@) is None,
        },
{
    if check_sizes(file) {
        load_rgba(file)
    } else {
        None
    }
}

// ---------------------------------------------------------------------------
// Laws
// ---------------------------------------------------------------------------

/// A palette of up to 256 whole colours fits, and no other does; a header fits
/// unless its picture has 2^29 pixels or more; an animation fits unless its count
/// of frames is the largest there is. Any other chunk fits, and pixels end the
/// search.
pub proof fn law_ordinary_chunks_fit(file: Seq<u8>, at: int, length: int)
    requires
        0 <= at,
        at + 16 <= file.len(),
        length == file[at] * 16777216 + file[at + 1] * 65536 + file[at + 2] * 256 + file[at + 3],
    ensures
        file[at + 4] == 80 && file[at + 5] == 76 && file[at + 6] == 84 && file[at + 7] == 69 ==> (
        chunk_fits(file, at) <==> exists|colours: int|
            0 <= colours <= 256 && length == #[trigger] (3 * colours)),
        file[at + 4] == 73 && file[at + 5] == 72 && file[at + 6] == 68 && file[at + 7] == 82 ==> (
        chunk_fits(file, at) <==> (file[at + 8] * 16777216 + file[at + 9] * 65536 + file[at + 10]
            * 256 + file[at + 11]) * (file[at + 12] * 16777216 + file[at + 13] * 65536 + file[at
            + 14] * 256 + file[at + 15]) < 536870912),
        file[at + 4] == 97 && file[at + 5] == 99 && file[at + 6] == 84 && file[at + 7] == 76 ==> (
        chunk_fits(file, at) <==> !(file[at + 8] == 255 && file[at + 9] == 255 && file[at + 10]
            == 255 && file[at + 11] == 255)),
        file[at + 4] != 80 && file[at + 4] != 73 && file[at + 4] != 97 ==> chunk_fits(file, at),
        file[at + 4] == 73 && file[at + 5] == 68 && file[at + 6] == 65 && file[at + 7] == 84
            ==> chunks_fit(file, at),
        !(file[at + 4] == 73 && file[at + 5] == 68 && file[at + 6] == 65 && file[at + 7] == 84)
            && at + 12 + length <= file.len() ==> (chunks_fit(file, at) <==> chunk_fits(file, at)
            && chunks_fit(file, at + 12 + length)),
{
    let tag = file.subrange(at + 4, at + 8);
    assert(tag[0] == file[at + 4] && tag[1] == file[at + 5]);
    assert(tag[2] == file[at + 6] && tag[3] == file[at + 7]);
    assert(file[at + 4] == 80 && file[at + 5] == 76 && file[at + 6] == 84 && file[at + 7] == 69
        <==> tag == palette_tag()) by {
        if file[at + 4] == 80 && file[at + 5] == 76 && file[at + 6] == 84 && file[at + 7] == 69 {
            assert(tag =~= palette_tag());
        }
    }
    assert(file[at + 4] == 73 && file[at + 5] == 72 && file[at + 6] == 68 && file[at + 7] == 82
        <==> tag == header_tag()) by {
        if file[at + 4] == 73 && file[at + 5] == 72 && file[at + 6] == 68 && file[at + 7] == 82 {
            assert(tag =~= header_tag());
        }
    }
    assert(file[at + 4] == 97 && file[at + 5] == 99 && file[at + 6] == 84 && file[at + 7] == 76
        <==> tag == frames_tag()) by {
        if file[at + 4] == 97 && file[at + 5] == 99 && file[at + 6] == 84 && file[at + 7] == 76 {
            assert(tag =~= frames_tag());
        }
    }
    assert(file[at + 4] == 73 && file[at + 5] == 68 && file[at + 6] == 65 && file[at + 7] == 84
        <==> tag == pixels_tag()) by {
        if file[at + 4] == 73 && file[at + 5] == 68 && file[at + 6] == 65 && file[at + 7] == 84 {
            assert(tag =~= pixels_tag());
        }
    }
    assert(length == number_at(file, at));
    if length % 3 == 0 && 0 <= length <= 768 {
        assert(length == 3 * (length / 3));
    }
}

} // verus!
