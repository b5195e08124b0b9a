//! The stub-loader blob: a little-endian container that carries the
//! RAM-resident second-stage loader as a text segment, a data segment and
//! an entry point, introduced by the literal magic `STUB`.

use vstd::prelude::*;
use vstd::slice::{slice_subrange, slice_to_vec};

use crate::chip::Chip;
use crate::{from_le32, Error, FormatError};

verus! {

/// A parsed stub blob.
#[derive(Clone, Debug, PartialEq, Eq)]
pub struct Stub {
    /// The raw chip word: 0x0000..=0xFFFF is an image chip id, 0x10000
    /// marks the ESP8266.
    pub chip: u32,
    /// The address the loader jumps to once both segments are in RAM.
    pub entry: u32,
    /// Load address of the text segment.
    pub text_start: u32,
    /// The text segment.
    pub text: Vec<u8>,
    /// Load address of the data segment.
    pub data_start: u32,
    /// The data segment.
    pub data: Vec<u8>,
}

/// The little-endian word at offset `off`.
pub open spec fn le32_at(b: Seq<u8>, off: int) -> int {
    b[off] + 0x100 * b[off + 1] + 0x10000 * b[off + 2] + 0x1000000 * b[off + 3]
}

/// The blob opens with the literal `STUB`.
pub open spec fn stub_magic_ok(b: Seq<u8>) -> bool {
    b.len() >= 4 && b[0] == 0x53 && b[1] == 0x54 && b[2] == 0x55 && b[3] == 0x42
}

/// A well-formed stub blob: magic, the five fixed words, and both
/// segments fully contained.  Trailing bytes are tolerated.
pub open spec fn stub_wf(b: Seq<u8>) -> bool {
    &&& stub_magic_ok(b)
    &&& b.len() >= 28
    &&& b.len() >= 28 + le32_at(b, 16)
    &&& b.len() >= 28 + le32_at(b, 16) + le32_at(b, 24 + le32_at(b, 16))
}

/// Parse a stub blob.
///
/// The layout is the magic, then little-endian words for chip, entry and
/// text start, the length-prefixed text segment, the data start, and the
/// length-prefixed data segment.
pub fn parse_stub(blob: &[u8]) -> (r: Result<Stub, Error>)
    ensures
        r is Ok <==> stub_wf(blob@),
        r matches Ok(s) ==> ({
            let b = blob@;
            let text_len = le32_at(b, 16);
            &&& s.chip == le32_at(b, 4)
            &&& s.entry == le32_at(b, 8)
            &&& s.text_start == le32_at(b, 12)
            &&& s.text@ == b.subrange(20, 20 + text_len)
            &&& s.data_start == le32_at(b, 20 + text_len)
            &&& s.data@ == b.subrange(28 + text_len, 28 + text_len + le32_at(b, 24 + text_len))
        }),
        r matches Err(e) ==> e == Error::Format(FormatError::InvalidStubBlob),
{
    let n = blob.len();
    if n < 28 {
        return Err(Error::Format(FormatError::InvalidStubBlob));
    }
    if !(blob[0] == 0x53 && blob[1] == 0x54 && blob[2] == 0x55 && blob[3] == 0x42) {
        return Err(Error::Format(FormatError::InvalidStubBlob));
    }
    let chip = from_le32(slice_subrange(blob, 4, 8));
    let entry = from_le32(slice_subrange(blob, 8, 12));
    let text_start = from_le32(slice_subrange(blob, 12, 16));
    let text_len = from_le32(slice_subrange(blob, 16, 20)) as usize;
    if text_len > n - 28 {
        return Err(Error::Format(FormatError::InvalidStubBlob));
    }
    let text = slice_to_vec(slice_subrange(blob, 20, 20 + text_len));
    let data_start = from_le32(slice_subrange(blob, 20 + text_len, 24 + text_len));
    let data_len = from_le32(slice_subrange(blob, 24 + text_len, 28 + text_len)) as usize;
    if data_len > n - 28 - text_len {
        return Err(Error::Format(FormatError::InvalidStubBlob));
    }
    let data = slice_to_vec(slice_subrange(blob, 28 + text_len, 28 + text_len + data_len));
    Ok(Stub { chip, entry, text_start, text, data_start, data })
}

/// The chip a stub's raw chip word names.
pub open spec fn stub_chip_spec(raw: u32) -> Option<Chip> {
    if raw <= 0xFFFF {
        Chip::image_chip_of_id(raw as u16)
    } else if raw == 0x10000 {
        Some(Chip::Esp8266)
    } else {
        None
    }
}

impl Stub {
    /// The chip this stub was built for, if its chip word is known.
    pub fn chip(&self) -> (r: Option<Chip>)
        ensures
            r == stub_chip_spec(self.chip),
    {
        if self.chip <= 0xFFFF {
            Chip::try_from_image_chip_id(self.chip as u16)
        } else if self.chip == 0x10000 {
            Some(Chip::Esp8266)
        } else {
            None
        }
    }
}

} // verus!
