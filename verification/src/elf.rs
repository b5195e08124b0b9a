//! Converting a 32-bit little-endian executable ELF into a firmware
//! image: every PT_LOAD program segment becomes an image segment, padded
//! with zeros to a multiple of four, and the image's metadata (segment
//! count, checksum, hash) is refreshed.

use vstd::prelude::*;
use vstd::slice::{slice_subrange, slice_to_vec};

use crate::chip::Chip;
use crate::flasher::pad4_len;
use crate::image::{image_checksum, image_prefix_bytes, sha256_of, EspImage, EspImageHeader,
    EspImageSegment};
use crate::stub::le32_at;
use crate::{Error, FormatError};

verus! {

/// The little-endian 16-bit value at offset `off`.
pub open spec fn le16_at(b: Seq<u8>, off: int) -> int {
    b[off] + 0x100 * b[off + 1]
}

/// A well-formed header of a 32-bit little-endian executable ELF.
pub open spec fn elf_header_wf(b: Seq<u8>) -> bool {
    &&& b.len() >= 52
    &&& b[0] == 0x7F && b[1] == 0x45 && b[2] == 0x4C && b[3] == 0x46
    &&& b[4] == 1
    &&& b[5] == 1
    &&& b[6] == 1
    &&& le16_at(b, 16) == 2
    &&& le32_at(b, 20) == 1
    &&& le16_at(b, 40) == 52
    &&& le16_at(b, 42) == 32
    &&& (le16_at(b, 46) == 0 || le16_at(b, 46) == 40)
}

/// `s` zero-padded to `n` bytes.
pub open spec fn pad_zero(s: Seq<u8>, n: nat) -> Seq<u8> {
    s + Seq::new((n - s.len()) as nat, |i: int| 0u8)
}

/// The load segments named by the first `n` program headers, oldest
/// first, as (load address, padded data) pairs; `None` when a segment
/// reaches outside the file.
pub open spec fn elf_load_segments(b: Seq<u8>, phoff: int, n: int) -> Option<Seq<(u32, Seq<u8>)>>
    decreases n,
{
    if n <= 0 {
        Some(Seq::empty())
    } else {
        match elf_load_segments(b, phoff, n - 1) {
            None => None,
            Some(prev) => {
                let off = phoff + 32 * (n - 1);
                if le32_at(b, off) != 1 {
                    Some(prev)
                } else {
                    let start = le32_at(b, off + 4);
                    let size = le32_at(b, off + 16);
                    if start + size > b.len() {
                        None
                    } else {
                        Some(
                            prev.push(
                                (
                                    le32_at(b, off + 8) as u32,
                                    pad_zero(
                                        b.subrange(start, start + size),
                                        pad4_len(size as nat),
                                    ),
                                ),
                            ),
                        )
                    }
                }
            },
        }
    }
}

/// The (address, data) view of built segments.
pub open spec fn seg_views(s: Seq<EspImageSegment>) -> Seq<(u32, Seq<u8>)> {
    s.map_values(|e: EspImageSegment| (e.load_addr, e.data@))
}

/// An ELF this converter accepts: a well-formed header, a program-header
/// table inside the file, every load segment inside the file, and an
/// image-encodable segment count.
pub open spec fn elf_wf(b: Seq<u8>) -> bool {
    &&& elf_header_wf(b)
    &&& le32_at(b, 28) + 32 * le16_at(b, 44) <= b.len()
    &&& elf_load_segments(b, le32_at(b, 28), le16_at(b, 44)) matches Some(segs) && segs.len()
        <= 255
}

/// Convert an executable ELF into a firmware image for `chip`: one image
/// segment per PT_LOAD program segment, in table order, each zero-padded
/// to a multiple of four; the entry point is the ELF's; the metadata
/// (segment count, checksum, appended hash) is refreshed.
pub fn elf_to_image(chip: Chip, data: &[u8]) -> (r: Result<EspImage, Error>)
    requires
        data@.len() <= 0xFFFF0000,
    ensures
        r is Ok <==> elf_wf(data@),
        r matches Ok(img) ==> ({
            let segs = elf_load_segments(data@, le32_at(data@, 28), le16_at(data@, 44)).unwrap();
            &&& img.header.entry_addr == le32_at(data@, 24)
            &&& img.header.chip_id == chip.image_chip_id_spec()
            &&& img.header.segment_count == segs.len()
            &&& img.header.hash_appended == 1
            &&& seg_views(img.segments@) == segs
            &&& img.checksum == image_checksum(img.segments@)
            &&& img.hash matches Some(h) && h@ == sha256_of(image_prefix_bytes(img))
        }),
        r matches Err(e) ==> e == Error::Format(FormatError::InvalidElf),
{
    let n = data.len();
    if n < 52 {
        return Err(Error::Format(FormatError::InvalidElf));
    }
    if !(data[0] == 0x7F && data[1] == 0x45 && data[2] == 0x4C && data[3] == 0x46 && data[4] == 1
        && data[5] == 1 && data[6] == 1) {
        return Err(Error::Format(FormatError::InvalidElf));
    }
    if crate::from_le16(slice_subrange(data, 16, 18)) != 2 {
        return Err(Error::Format(FormatError::InvalidElf));
    }
    if crate::from_le32(slice_subrange(data, 20, 24)) != 1 {
        return Err(Error::Format(FormatError::InvalidElf));
    }
    if crate::from_le16(slice_subrange(data, 40, 42)) != 52 {
        return Err(Error::Format(FormatError::InvalidElf));
    }
    if crate::from_le16(slice_subrange(data, 42, 44)) != 32 {
        return Err(Error::Format(FormatError::InvalidElf));
    }
    let shentsize = crate::from_le16(slice_subrange(data, 46, 48));
    if !(shentsize == 0 || shentsize == 40) {
        return Err(Error::Format(FormatError::InvalidElf));
    }
    let entry_addr = crate::from_le32(slice_subrange(data, 24, 28));
    let phoff = crate::from_le32(slice_subrange(data, 28, 32));
    let phnum = crate::from_le16(slice_subrange(data, 44, 46));
    if phoff as u64 + 32 * (phnum as u64) > n as u64 {
        return Err(Error::Format(FormatError::InvalidElf));
    }
    let phoff = phoff as usize;
    let mut segments: Vec<EspImageSegment> = Vec::new();
    let mut i: usize = 0;
    proof {
        assert(seg_views(segments@) =~= elf_load_segments(
            data@,
            phoff as int,
            0,
        ).unwrap());
    }
    while i < phnum as usize
        invariant
            n == data@.len() <= 0xFFFF0000,
            phoff + 32 * (phnum as int) <= n,
            phoff == le32_at(data@, 28),
            phnum == le16_at(data@, 44),
            i <= phnum as usize,
            elf_load_segments(data@, phoff as int, i as int) matches Some(segs) && segs
                == seg_views(segments@),
            forall|k: int|
                0 <= k < segments@.len() ==> #[trigger] segments@[k].data@.len() <= 0xFFFF0003,
        decreases phnum as int - i,
    {
        let off = phoff + 32 * i;
        let ptype = crate::from_le32(slice_subrange(data, off, off + 4));
        if ptype == 1 {
            let start = crate::from_le32(slice_subrange(data, off + 4, off + 8)) as usize;
            let vaddr = crate::from_le32(slice_subrange(data, off + 8, off + 12));
            let size = crate::from_le32(slice_subrange(data, off + 16, off + 20)) as usize;
            if start as u64 + size as u64 > n as u64 {
                proof {
                    lemma_load_segments_stuck(data@, phoff as int, i as int, phnum as int);
                }
                return Err(Error::Format(FormatError::InvalidElf));
            }
            let padded = ((size + 3) / 4) * 4;
            proof {
                vstd::arithmetic::div_mod::lemma_fundamental_div_mod((size + 3) as int, 4);
                assert(padded == pad4_len(size as nat));
                assert(size <= padded <= size + 3);
            }
            let mut seg_data = slice_to_vec(slice_subrange(data, start, start + size));
            proof {
                assert(seg_data@ =~= data@.subrange(start as int, start as int + size as int)
                    + Seq::new((seg_data@.len() - size) as nat, |j: int| 0u8));
            }
            while seg_data.len() < padded
                invariant
                    size <= seg_data@.len() <= padded,
                    padded == pad4_len(size as nat),
                    start + size <= data@.len(),
                    seg_data@ == data@.subrange(start as int, start as int + size as int)
                        + Seq::new((seg_data@.len() - size) as nat, |j: int| 0u8),
                decreases padded - seg_data@.len(),
            {
                seg_data.push(0);
                proof {
                    assert(seg_data@ =~= data@.subrange(start as int, start as int + size as int)
                        + Seq::new((seg_data@.len() - size) as nat, |j: int| 0u8));
                }
            }
            proof {
                assert(seg_data@ =~= pad_zero(
                    data@.subrange(start as int, start as int + size as int),
                    pad4_len(size as nat),
                ));
            }
            segments.push(EspImageSegment { load_addr: vaddr, data: seg_data });
            proof {
                assert(seg_views(segments@) =~= elf_load_segments(
                    data@,
                    phoff as int,
                    i as int + 1,
                ).unwrap());
            }
        } else {
            proof {
                assert(seg_views(segments@) =~= elf_load_segments(
                    data@,
                    phoff as int,
                    i as int + 1,
                ).unwrap());
            }
        }
        i = i + 1;
    }
    if segments.len() > 255 {
        return Err(Error::Format(FormatError::InvalidElf));
    }
    let mut image = EspImage {
        header: EspImageHeader {
            segment_count: 0,
            spi_mode: 0,
            spi_speed_size: 0,
            entry_addr,
            wp_pin: 0,
            spi_pin_drv: [0; 3],
            chip_id: chip.image_chip_id(),
            min_chip_rev: 0,
            reserved: [0; 8],
            hash_appended: 0,
        },
        segments,
        checksum: 0,
        hash: None,
    };
    proof {
        assert(image.segments_encodable());
        assert(seg_views(image.segments@).len() == image.segments@.len());
    }
    image.update_metadata();
    Ok(image)
}

/// Once a load segment reaches outside the file, the whole table yields
/// no segment list.
proof fn lemma_load_segments_stuck(b: Seq<u8>, phoff: int, i: int, n: int)
    requires
        0 <= i < n,
        elf_load_segments(b, phoff, i + 1) is None,
    ensures
        elf_load_segments(b, phoff, n) is None,
    decreases n,
{
    if n > i + 1 {
        lemma_load_segments_stuck(b, phoff, i, n - 1);
    }
}

} // verus!
