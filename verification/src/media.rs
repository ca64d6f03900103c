//! The natural size of an embedded PNG image, read from the header of a
//! `data:image/png;base64,` URL.
use crate::text::{chars_of, range_starts_with, strip_prefix};
use vstd::prelude::*;
use vstd::string::*;
use vstd::utf8::encode_utf8;

verus! {

/// The number of base64 characters decoded to reach the image size: 32
/// characters give the 24 header bytes.
pub const PNG_BASE64_HEADER_CHARS: usize = 32;

/// What `base64::engine::general_purpose::STANDARD.decode` makes of a byte
/// string (`None` where it returns an error).
pub uninterp spec fn base64_standard_decoded(input: Seq<u8>) -> Option<Seq<u8>>;

/// Calls `base64::Engine::decode` with the `STANDARD` engine (standard
/// alphabet, padding required); the result is the named
/// `base64_standard_decoded` of the input.
#[verifier::external_body]
fn decode_standard_base64(input: &[u8]) -> (r: Option<Vec<u8>>)
    ensures
        match r {
            Some(v) => base64_standard_decoded(input@) == Some(v@),
            None => base64_standard_decoded(input@) is None,
        },
{
    base64::Engine::decode(&base64::engine::general_purpose::STANDARD, input).ok()
}

/// The eight bytes that every PNG file starts with.
pub open spec fn png_signature() -> Seq<u8> {
    seq![0x89u8, 0x50u8, 0x4eu8, 0x47u8, 0x0du8, 0x0au8, 0x1au8, 0x0au8]
}

/// The big-endian 32-bit number at `at`.
pub open spec fn be_u32(b: Seq<u8>, at: int) -> int {
    b[at] * 0x100_0000 + b[at + 1] * 0x1_0000 + b[at + 2] * 0x100 + b[at + 3]
}

/// The width and height in a PNG header: the signature, then the `IHDR`
/// chunk whose data starts with the width (bytes 16 to 20) and the height
/// (bytes 20 to 24); `None` for a short or foreign header or an empty image.
pub open spec fn png_header_spec(header: Seq<u8>) -> Option<(u32, u32)> {
    if header.len() < 24 || header.subrange(0, 8) != png_signature() {
        None
    } else {
        let w = be_u32(header, 16);
        let h = be_u32(header, 20);
        if w > 0 && h > 0 {
            Some((w as u32, h as u32))
        } else {
            None
        }
    }
}

/// The base64 text that holds the PNG header of a data URL: the UTF-8
/// bytes after the `data:image/png;base64,` prefix, at most 32 of them,
/// cut to a whole number of four-character groups.
pub open spec fn png_data_header(source: Seq<char>) -> Option<Seq<u8>> {
    match strip_prefix(source, "data:image/png;base64,"@) {
        Some(encoded) => {
            let b = encode_utf8(encoded);
            let end = if b.len() < 32 { b.len() as int } else { 32 };
            Some(b.subrange(0, end - end % 4))
        },
        None => None,
    }
}

/// The size of the image of a PNG data URL.
pub open spec fn data_dimensions_spec(source: Seq<char>) -> Option<(u32, u32)> {
    match png_data_header(source) {
        Some(text) => match base64_standard_decoded(text) {
            Some(header) => png_header_spec(header),
            None => None,
        },
        None => None,
    }
}

/// The width and height written in a PNG header (see `png_header_spec`).
pub fn png_header_dimensions(header: &[u8]) -> (r: Option<(u32, u32)>)
    ensures
        r == png_header_spec(header@),
{
    if header.len() < 24 {
        return None;
    }
    let signature = header[0] == 0x89 && header[1] == 0x50 && header[2] == 0x4e && header[3] == 0x47
        && header[4] == 0x0d && header[5] == 0x0a && header[6] == 0x1a && header[7] == 0x0a;
    proof {
        if signature {
            assert(header@.subrange(0, 8) =~= png_signature());
        } else {
            assert(header@.subrange(0, 8) != png_signature()) by {
                if header@.subrange(0, 8) == png_signature() {
                    assert(header@.subrange(0, 8)[0] == header@[0]);
                    assert(header@.subrange(0, 8)[1] == header@[1]);
                    assert(header@.subrange(0, 8)[2] == header@[2]);
                    assert(header@.subrange(0, 8)[3] == header@[3]);
                    assert(header@.subrange(0, 8)[4] == header@[4]);
                    assert(header@.subrange(0, 8)[5] == header@[5]);
                    assert(header@.subrange(0, 8)[6] == header@[6]);
                    assert(header@.subrange(0, 8)[7] == header@[7]);
                }
            }
        }
    }
    if !signature {
        return None;
    }
    let w: u32 = (header[16] as u32) * 0x100_0000 + (header[17] as u32) * 0x1_0000 + (header[18] as u32) * 0x100
        + (header[19] as u32);
    let h: u32 = (header[20] as u32) * 0x100_0000 + (header[21] as u32) * 0x1_0000 + (header[22] as u32) * 0x100
        + (header[23] as u32);
    if w > 0 && h > 0 {
        Some((w, h))
    } else {
        None
    }
}

/// The natural size of the image of a `data:image/png;base64,` URL, read
/// from the PNG header at the start of its data.
pub fn data_dimensions(source: &str) -> (r: Option<(u32, u32)>)
    ensures
        r == data_dimensions_spec(source@),
{
    let v = chars_of(source);
    let n = v.len();
    proof {
        assert(v@.subrange(0, n as int) =~= source@);
        reveal_strlit("data:image/png;base64,");
    }
    if !range_starts_with(&v, 0, n, "data:image/png;base64,") {
        return None;
    }
    let encoded = source.substring_char(22, n);
    let bytes = encoded.as_bytes();
    let len = bytes.len();
    let end = if len < PNG_BASE64_HEADER_CHARS { len } else { PNG_BASE64_HEADER_CHARS };
    let end4 = end - end % 4;
    let mut text: Vec<u8> = Vec::new();
    let mut i: usize = 0;
    while i < end4
        invariant
            end4 <= bytes@.len(),
            i <= end4,
            text@ == bytes@.subrange(0, i as int),
        decreases end4 - i,
    {
        text.push(bytes[i]);
        proof {
            assert(text@ =~= bytes@.subrange(0, i + 1));
        }
        i = i + 1;
    }
    match decode_standard_base64(text.as_slice()) {
        Some(header) => png_header_dimensions(header.as_slice()),
        None => None,
    }
}

} // verus!
