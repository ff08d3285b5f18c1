//! The developer previews' image files: a 32-bit top-down Windows bitmap around pixels the
//! window painted, and a PNG of the interface's snapshot, encoded with the png crate.
use vstd::prelude::*;

verus! {

/// The four little-endian bytes of `v`.
pub open spec fn le32(v: u32) -> Seq<u8> {
    seq![(v & 0xff) as u8, ((v >> 8) & 0xff) as u8, ((v >> 16) & 0xff) as u8, ((v >> 24) & 0xff) as u8]
}

/// The two little-endian bytes of `v`.
pub open spec fn le16(v: u16) -> Seq<u8> {
    seq![(v & 0xff) as u8, ((v >> 8) & 0xff) as u8]
}

/// Size of the file header and the information header together.
pub const HEADER_BYTES: u32 = 54;

/// The bitmap file for `pixels` (BGRA rows, top row first) of the given size: the file
/// header ("BM", file size, reserved, pixel offset), the 40-byte information header with a
/// negative height for top-down rows, one plane and 32 bits per pixel, zeros for the
/// remaining fields, then the pixels. The file size is written modulo 2^32.
pub open spec fn bitmap_bytes(width: i32, height: i32, pixels: Seq<u8>) -> Seq<u8> {
    seq![66u8, 77u8] + le32((HEADER_BYTES + pixels.len()) as u32) + seq![0u8, 0u8, 0u8, 0u8]
        + le32(HEADER_BYTES) + le32(40) + le32(width as u32) + le32((-height) as i32 as u32)
        + le16(1) + le16(32) + Seq::new(24, |i: int| 0u8) + pixels
}

fn push_le32(out: &mut Vec<u8>, v: u32)
    ensures
        final(out)@ == old(out)@ + le32(v),
{
    out.push((v & 0xff) as u8);
    out.push(((v >> 8) & 0xff) as u8);
    out.push(((v >> 16) & 0xff) as u8);
    out.push(((v >> 24) & 0xff) as u8);
    assert(final(out)@ =~= old(out)@ + le32(v));
}

fn push_le16(out: &mut Vec<u8>, v: u16)
    ensures
        final(out)@ == old(out)@ + le16(v),
{
    out.push((v & 0xff) as u8);
    out.push(((v >> 8) & 0xff) as u8);
    assert(final(out)@ =~= old(out)@ + le16(v));
}

/// The bitmap file around `pixels`; a height of `i32::MIN` has no negation and is excluded.
pub fn bitmap_file(width: i32, height: i32, pixels: &[u8]) -> (r: Vec<u8>)
    requires
        height > i32::MIN,
    ensures
        r@ == bitmap_bytes(width, height, pixels@),
        r@.len() == HEADER_BYTES + pixels@.len(),
{
    let mut data: Vec<u8> = Vec::new();
    data.push(66u8);
    data.push(77u8);
    let total: u128 = pixels.len() as u128 + HEADER_BYTES as u128;
    let size: u32 = total as u32;
    push_le32(&mut data, size);
    let mut k: usize = 0;
    while k < 4
        invariant
            k <= 4,
            data@ == seq![66u8, 77u8] + le32(size) + Seq::new(k as nat, |i: int| 0u8),
        decreases 4 - k,
    {
        data.push(0u8);
        k = k + 1;
        assert(data@ =~= seq![66u8, 77u8] + le32(size) + Seq::new(k as nat, |i: int| 0u8));
    }
    push_le32(&mut data, HEADER_BYTES);
    push_le32(&mut data, 40);
    push_le32(&mut data, width as u32);
    let flipped: i32 = -height;
    push_le32(&mut data, flipped as u32);
    push_le16(&mut data, 1);
    push_le16(&mut data, 32);
    let ghost head = data@;
    let mut z: usize = 0;
    while z < 24
        invariant
            z <= 24,
            data@ == head + Seq::new(z as nat, |i: int| 0u8),
        decreases 24 - z,
    {
        data.push(0u8);
        z = z + 1;
        assert(data@ =~= head + Seq::new(z as nat, |i: int| 0u8));
    }
    let ghost framed = data@;
    let n = pixels.len();
    let mut j: usize = 0;
    while j < n
        invariant
            n == pixels@.len(),
            j <= n,
            data@ == framed + pixels@.subrange(0, j as int),
        decreases n - j,
    {
        data.push(pixels[j]);
        j = j + 1;
        assert(data@ =~= framed + pixels@.subrange(0, j as int));
    }
    assert(pixels@.subrange(0, n as int) =~= pixels@);
    assert(data@ =~= bitmap_bytes(width, height, pixels@));
    data
}

/// The eight bytes every PNG file begins with.
pub open spec fn png_signature() -> Seq<u8> {
    seq![137u8, 80u8, 78u8, 71u8, 13u8, 10u8, 26u8, 10u8]
}

/// The PNG file the png crate writes for 8-bit RGBA `pixels` of the given size, with its
/// default compression and filtering; `None` when it refuses them.
pub uninterp spec fn png_rgba8(width: u32, height: u32, pixels: Seq<u8>) -> Option<Seq<u8>>;

#[verifier::external_type_specification]
#[verifier::external_body]
pub struct ExEncodingError(png::EncodingError);

/// `png::Encoder` set to 8-bit RGBA and writing into memory: `write_header`, then
/// `write_image_data`; dropping the writer adds the end chunk. The bytes are named by
/// `png_rgba8`. Its source refuses a zero width or height in `write_header`; with both
/// positive and the pixel count matching, nothing else can fail, since the output is memory.
/// A successful header starts with the PNG signature. The error's text is left unsaid.
#[verifier::external_body]
fn encode_rgba8(width: u32, height: u32, pixels: &[u8]) -> (r: Result<Vec<u8>, png::EncodingError>)
    requires
        pixels@.len() == width * height * 4,
    ensures
        match r {
            Ok(bytes) => png_rgba8(width, height, pixels@) == Some(bytes@) && bytes@.len() >= 8
                && bytes@.subrange(0, 8) == png_signature(),
            Err(_) => png_rgba8(width, height, pixels@) is None,
        },
        width == 0 || height == 0 ==> r is Err,
        width > 0 && height > 0 ==> r is Ok,
{
    let mut out = Vec::new();
    let mut encoder = png::Encoder::new(&mut out, width, height);
    encoder.set_color(png::ColorType::Rgba);
    encoder.set_depth(png::BitDepth::Eight);
    encoder.write_header()?.write_image_data(pixels)?;
    Ok(out)
}

/// The PNG file of an interface snapshot (8-bit RGBA, `width` by `height` pixels), or the
/// encoder's message when it refuses: it refuses exactly the empty snapshots.
pub fn snapshot_png(width: u32, height: u32, pixels: &[u8]) -> (r: Result<Vec<u8>, String>)
    requires
        pixels@.len() == width * height * 4,
    ensures
        match r {
            Ok(bytes) => png_rgba8(width, height, pixels@) == Some(bytes@) && bytes@.len() >= 8
                && bytes@.subrange(0, 8) == png_signature(),
            Err(_) => png_rgba8(width, height, pixels@) is None,
        },
        width == 0 || height == 0 ==> r is Err,
        width > 0 && height > 0 ==> r is Ok,
{
    match encode_rgba8(width, height, pixels) {
        Ok(bytes) => Ok(bytes),
        Err(e) => Err(e.to_string()),
    }
}

} // verus!
