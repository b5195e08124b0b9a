//! Firmware images: the 24-byte header, the load segments, the XOR
//! checksum that sits padded out to a 16-byte boundary behind the
//! segments, and the optional SHA-256 over everything before it.

use sha2::Digest;
use vstd::prelude::*;

use crate::{le16_bytes, le32_bytes, Error, FormatError};

verus! {

/// The chip ids used in firmware image headers.
#[derive(Clone, Copy, Debug, PartialEq, Eq, Structural)]
pub enum EspChipId {
    ESP32,
    ESP32S2,
    ESP32C3,
    ESP32S3,
    ESP32C2,
}

impl EspChipId {
    /// The numeric id of the chip in an image header.
    pub fn value(self) -> (r: u16)
        ensures
            r == match self {
                EspChipId::ESP32 => 0x0000int,
                EspChipId::ESP32S2 => 0x0002int,
                EspChipId::ESP32C3 => 0x0005int,
                EspChipId::ESP32S3 => 0x0009int,
                EspChipId::ESP32C2 => 0x000Cint,
            },
    {
        match self {
            EspChipId::ESP32 => 0x0000,
            EspChipId::ESP32S2 => 0x0002,
            EspChipId::ESP32C3 => 0x0005,
            EspChipId::ESP32S3 => 0x0009,
            EspChipId::ESP32C2 => 0x000C,
        }
    }
}

/// The image header; on the wire it opens with the magic byte 0xE9.
#[derive(Clone, Copy, Debug, PartialEq, Eq)]
pub struct EspImageHeader {
    pub segment_count: u8,
    pub spi_mode: u8,
    pub spi_speed_size: u8,
    pub entry_addr: u32,
    pub wp_pin: u8,
    pub spi_pin_drv: [u8; 3],
    pub chip_id: u16,
    pub min_chip_rev: u8,
    pub reserved: [u8; 8],
    pub hash_appended: u8,
}

/// One load segment: address, length word, data.
#[derive(Clone, Debug, PartialEq, Eq)]
pub struct EspImageSegment {
    pub load_addr: u32,
    pub data: Vec<u8>,
}

/// A whole image.
#[derive(Clone, Debug, PartialEq, Eq)]
pub struct EspImage {
    pub header: EspImageHeader,
    pub segments: Vec<EspImageSegment>,
    pub checksum: u8,
    pub hash: Option<[u8; 32]>,
}

/// The 24 bytes of an encoded header.
pub open spec fn header_bytes(h: EspImageHeader) -> Seq<u8> {
    seq![0xE9u8, h.segment_count, h.spi_mode, h.spi_speed_size] + le32_bytes(h.entry_addr)
        + seq![h.wp_pin] + h.spi_pin_drv@ + le16_bytes(h.chip_id) + seq![h.min_chip_rev]
        + h.reserved@ + seq![h.hash_appended]
}

/// An encoded segment: address, byte length, data, all little-endian.
pub open spec fn segment_bytes(s: EspImageSegment) -> Seq<u8> {
    le32_bytes(s.load_addr) + le32_bytes(s.data@.len() as u32) + s.data@
}

/// The encoded segments, in order.
pub open spec fn segments_bytes(segs: Seq<EspImageSegment>) -> Seq<u8>
    decreases segs.len(),
{
    if segs.len() == 0 {
        Seq::empty()
    } else {
        segments_bytes(segs.drop_last()) + segment_bytes(segs.last())
    }
}

/// The checksum block at stream position `pos`: zero padding out to
/// offset 15 modulo 16, then the checksum byte.
pub open spec fn checksum_block(pos: nat, checksum: u8) -> Seq<u8> {
    Seq::new((15 - (pos % 16)) as nat, |i: int| 0u8) + seq![checksum]
}

/// Everything before the optional hash: header, segments, checksum
/// block.
pub open spec fn image_prefix_bytes(img: EspImage) -> Seq<u8> {
    let body = header_bytes(img.header) + segments_bytes(img.segments@);
    body + checksum_block(body.len(), img.checksum)
}

/// The whole encoded image.
pub open spec fn image_bytes(img: EspImage) -> Seq<u8> {
    image_prefix_bytes(img) + match img.hash {
        Some(h) => h@,
        None => Seq::empty(),
    }
}

/// The image checksum over the data of the segments `segs`, seeded with
/// 0xEF.
pub open spec fn seg_xor(acc: u8, data: Seq<u8>) -> u8
    decreases data.len(),
{
    if data.len() == 0 {
        acc
    } else {
        seg_xor(acc, data.drop_last()) ^ data.last()
    }
}

/// 0xEF XORed over every data byte of every segment.
pub open spec fn image_checksum(segs: Seq<EspImageSegment>) -> u8
    decreases segs.len(),
{
    if segs.len() == 0 {
        0xEF
    } else {
        seg_xor(image_checksum(segs.drop_last()), segs.last().data@)
    }
}

/// The little-endian 16-bit value at offset `off`.
pub open spec fn le16_at(b: Seq<u8>, off: int) -> int {
    b[off] + 0x100 * b[off + 1]
}

/// The segments encoded at `off`, with where they end: `count` records
/// of address word, length word and data; `None` when one reaches
/// outside the blob.
pub open spec fn segments_at(b: Seq<u8>, off: int, count: int) -> Option<(Seq<(u32, Seq<u8>)>, int)>
    decreases count,
{
    if count <= 0 {
        Some((Seq::empty(), off))
    } else {
        match segments_at(b, off, count - 1) {
            None => None,
            Some((prev, pos)) => {
                if pos + 8 > b.len() {
                    None
                } else {
                    let len = crate::stub::le32_at(b, pos + 4);
                    if pos + 8 + len > b.len() {
                        None
                    } else {
                        Some(
                            (
                                prev.push(
                                    (
                                        crate::stub::le32_at(b, pos) as u32,
                                        b.subrange(pos + 8, pos + 8 + len),
                                    ),
                                ),
                                pos + 8 + len,
                            ),
                        )
                    }
                }
            },
        }
    }
}

/// The (address, data) view of parsed segments.
pub open spec fn parsed_seg_views(s: Seq<EspImageSegment>) -> Seq<(u32, Seq<u8>)> {
    s.map_values(|e: EspImageSegment| (e.load_addr, e.data@))
}

/// A blob that parses as an image: the magic, the declared segments all
/// inside the blob, the checksum byte at its 16-byte-aligned position,
/// and—with the hash flag set—32 further bytes of digest.  Trailing
/// bytes are tolerated.
pub open spec fn image_wf(b: Seq<u8>) -> bool {
    &&& b.len() >= 24
    &&& b[0] == 0xE9
    &&& segments_at(b, 24, b[1] as int) matches Some((segs, pos)) && {
        let cks = pos + 15 - (pos % 16);
        &&& cks < b.len()
        &&& (b[23] != 0 ==> cks + 33 <= b.len())
    }
}

/// What an outside SHA-256 of a byte string yields.
pub uninterp spec fn sha256_of(data: Seq<u8>) -> Seq<u8>;

/// Relies on sha2's `Sha256`: the 32-byte SHA-256 digest, a function of
/// the input bytes alone.
#[verifier::external_body]
fn sha256(data: &[u8]) -> (r: [u8; 32])
    ensures
        r@ == sha256_of(data@),
{
    let digest = sha2::Sha256::digest(data);
    let mut out = [0u8; 32];
    out.copy_from_slice(&digest);
    out
}

/// Copy 32 bytes at `off` into an array.
fn read_32(b: &[u8], off: usize) -> (r: [u8; 32])
    requires
        off + 32 <= b@.len(),
    ensures
        r@ == b@.subrange(off as int, off as int + 32),
{
    let r = [
        b[off], b[off + 1], b[off + 2], b[off + 3], b[off + 4], b[off + 5], b[off + 6],
        b[off + 7], b[off + 8], b[off + 9], b[off + 10], b[off + 11], b[off + 12], b[off + 13],
        b[off + 14], b[off + 15], b[off + 16], b[off + 17], b[off + 18], b[off + 19], b[off + 20],
        b[off + 21], b[off + 22], b[off + 23], b[off + 24], b[off + 25], b[off + 26], b[off + 27],
        b[off + 28], b[off + 29], b[off + 30], b[off + 31],
    ];
    proof {
        assert(r@ =~= b@.subrange(off as int, off as int + 32));
    }
    r
}

/// Once a declared segment reaches outside the blob, the whole segment
/// list yields nothing.
proof fn lemma_segments_stuck(b: Seq<u8>, k: int, count: int)
    requires
        0 <= k < count,
        segments_at(b, 24, k + 1) is None,
    ensures
        segments_at(b, 24, count) is None,
    decreases count,
{
    if count > k + 1 {
        lemma_segments_stuck(b, k, count - 1);
    }
}

/// Parse an encoded image: the 24-byte header, the declared number of
/// segments, the checksum byte at its aligned position, and the 32-byte
/// hash when the header's flag announces one.  Trailing bytes are
/// tolerated.
pub fn parse_image(blob: &[u8]) -> (r: Result<EspImage, Error>)
    requires
        blob@.len() <= 0xFFFF0000,
    ensures
        r is Ok <==> image_wf(blob@),
        r matches Ok(img) ==> ({
            let b = blob@;
            let segs_pos = segments_at(b, 24, b[1] as int).unwrap();
            let cks = segs_pos.1 + 15 - (segs_pos.1 % 16);
            &&& img.header.segment_count == b[1]
            &&& img.header.spi_mode == b[2]
            &&& img.header.spi_speed_size == b[3]
            &&& img.header.entry_addr == crate::stub::le32_at(b, 4)
            &&& img.header.wp_pin == b[8]
            &&& img.header.spi_pin_drv@ == b.subrange(9, 12)
            &&& img.header.chip_id == le16_at(b, 12)
            &&& img.header.min_chip_rev == b[14]
            &&& img.header.reserved@ == b.subrange(15, 23)
            &&& img.header.hash_appended == b[23]
            &&& parsed_seg_views(img.segments@) == segs_pos.0
            &&& img.checksum == b[cks]
            &&& (img.hash is Some <==> b[23] != 0)
            &&& (img.hash matches Some(h) ==> h@ == b.subrange(cks + 1, cks + 33))
        }),
        r matches Err(e) ==> e == Error::Format(FormatError::InvalidImage),
{
    let n = blob.len();
    if n < 24 || blob[0] != 0xE9 {
        return Err(Error::Format(FormatError::InvalidImage));
    }
    let count = blob[1] as usize;
    let mut segments: Vec<EspImageSegment> = Vec::new();
    let mut pos: usize = 24;
    let mut k: usize = 0;
    proof {
        assert(parsed_seg_views(segments@) =~= Seq::<(u32, Seq<u8>)>::empty());
    }
    while k < count
        invariant
            n == blob@.len(),
            n <= 0xFFFF0000,
            24 <= pos <= n,
            k <= count,
            count == blob@[1],
            segments@.len() == k,
            segments_at(blob@, 24, k as int) matches Some(sp) && sp.0 == parsed_seg_views(
                segments@,
            ) && sp.1 == pos,
        decreases count - k,
    {
        if n - pos < 8 {
            proof {
                lemma_segments_stuck(blob@, k as int, count as int);
            }
            return Err(Error::Format(FormatError::InvalidImage));
        }
        let addr = crate::from_le32(vstd::slice::slice_subrange(blob, pos, pos + 4));
        let seg_len = crate::from_le32(
            vstd::slice::slice_subrange(blob, pos + 4, pos + 8),
        ) as usize;
        if (pos + 8) as u64 + seg_len as u64 > n as u64 {
            proof {
                lemma_segments_stuck(blob@, k as int, count as int);
            }
            return Err(Error::Format(FormatError::InvalidImage));
        }
        let data = vstd::slice::slice_to_vec(
            vstd::slice::slice_subrange(blob, pos + 8, pos + 8 + seg_len),
        );
        segments.push(EspImageSegment { load_addr: addr, data });
        pos = pos + 8 + seg_len;
        k = k + 1;
        proof {
            let sp = segments_at(blob@, 24, k as int).unwrap();
            assert(sp.0 =~= parsed_seg_views(segments@));
        }
    }
    let pad = 15 - (pos % 16);
    let cks = pos + pad;
    if cks >= n {
        return Err(Error::Format(FormatError::InvalidImage));
    }
    let checksum = blob[cks];
    let hash_appended = blob[23];
    let hash: Option<[u8; 32]> = if hash_appended != 0 {
        if n - cks < 33 {
            return Err(Error::Format(FormatError::InvalidImage));
        }
        Some(read_32(blob, cks + 1))
    } else {
        None
    };
    let header = EspImageHeader {
        segment_count: blob[1],
        spi_mode: blob[2],
        spi_speed_size: blob[3],
        entry_addr: crate::from_le32(vstd::slice::slice_subrange(blob, 4, 8)),
        wp_pin: blob[8],
        spi_pin_drv: [blob[9], blob[10], blob[11]],
        chip_id: crate::from_le16(vstd::slice::slice_subrange(blob, 12, 14)),
        min_chip_rev: blob[14],
        reserved: [
            blob[15], blob[16], blob[17], blob[18], blob[19], blob[20], blob[21], blob[22],
        ],
        hash_appended,
    };
    proof {
        assert(header.spi_pin_drv@ =~= blob@.subrange(9, 12));
        assert(header.reserved@ =~= blob@.subrange(15, 23));
    }
    Ok(EspImage { header, segments, checksum, hash })
}

impl EspImageHeader {
    /// Encode the header.
    pub fn to_bytes(&self) -> (r: Vec<u8>)
        ensures
            r@ == header_bytes(*self),
            r@.len() == 24,
    {
        let mut out: Vec<u8> = Vec::new();
        out.push(0xE9);
        out.push(self.segment_count);
        out.push(self.spi_mode);
        out.push(self.spi_speed_size);
        crate::command::push_le32(&mut out, self.entry_addr);
        out.push(self.wp_pin);
        out.push(self.spi_pin_drv[0]);
        out.push(self.spi_pin_drv[1]);
        out.push(self.spi_pin_drv[2]);
        crate::command::push_le16(&mut out, self.chip_id);
        out.push(self.min_chip_rev);
        let mut k: usize = 0;
        proof {
            assert(out@ =~= seq![0xE9u8, self.segment_count, self.spi_mode, self.spi_speed_size]
                + le32_bytes(self.entry_addr) + seq![self.wp_pin] + self.spi_pin_drv@
                + le16_bytes(self.chip_id) + seq![self.min_chip_rev] + self.reserved@.take(0));
        }
        while k < 8
            invariant
                k <= 8,
                out@ == seq![0xE9u8, self.segment_count, self.spi_mode, self.spi_speed_size]
                    + le32_bytes(self.entry_addr) + seq![self.wp_pin] + self.spi_pin_drv@
                    + le16_bytes(self.chip_id) + seq![self.min_chip_rev] + self.reserved@.take(
                    k as int,
                ),
            decreases 8 - k,
        {
            out.push(self.reserved[k]);
            k = k + 1;
            proof {
                assert(self.reserved@.take(k as int) =~= self.reserved@.take(k as int - 1).push(
                    self.reserved@[k as int - 1],
                ));
                assert(out@ =~= seq![0xE9u8, self.segment_count, self.spi_mode,
                    self.spi_speed_size] + le32_bytes(self.entry_addr) + seq![self.wp_pin]
                    + self.spi_pin_drv@ + le16_bytes(self.chip_id) + seq![self.min_chip_rev]
                    + self.reserved@.take(k as int));
            }
        }
        out.push(self.hash_appended);
        proof {
            assert(self.reserved@.take(8) =~= self.reserved@);
            assert(out@ =~= header_bytes(*self));
        }
        out
    }
}

impl EspImageSegment {
    /// Encode the segment.
    pub fn to_bytes(&self) -> (r: Vec<u8>)
        requires
            self.data@.len() <= 0xFFFFFFFF,
        ensures
            r@ == segment_bytes(*self),
    {
        let mut out: Vec<u8> = Vec::new();
        crate::command::push_le32(&mut out, self.load_addr);
        crate::command::push_le32(&mut out, self.data.len() as u32);
        let mut dv = vstd::slice::slice_to_vec(self.data.as_slice());
        out.append(&mut dv);
        proof {
            assert(out@ =~= segment_bytes(*self));
        }
        out
    }
}

impl EspImage {
    /// Every segment's byte length fits the wire's 32-bit length word.
    pub open spec fn segments_encodable(&self) -> bool {
        forall|i: int|
            0 <= i < self.segments@.len() ==> #[trigger] self.segments@[i].data@.len()
                <= 0xFFFFFFFF
    }

    /// Encode the header, the segments, and the checksum block.
    pub fn prefix_to_bytes(&self) -> (r: Vec<u8>)
        requires
            self.segments_encodable(),
        ensures
            r@ == image_prefix_bytes(*self),
    {
        let mut out = self.header.to_bytes();
        let mut i: usize = 0;
        proof {
            assert(out@ =~= header_bytes(self.header) + segments_bytes(self.segments@.take(0)));
        }
        while i < self.segments.len()
            invariant
                i <= self.segments@.len(),
                self.segments_encodable(),
                out@ == header_bytes(self.header) + segments_bytes(self.segments@.take(i as int)),
            decreases self.segments@.len() - i,
        {
            let mut sv = self.segments[i].to_bytes();
            out.append(&mut sv);
            i = i + 1;
            proof {
                assert(self.segments@.take(i as int).drop_last() =~= self.segments@.take(
                    i as int - 1,
                ));
                assert(self.segments@.take(i as int).last() == self.segments@[i as int - 1]);
                assert(out@ =~= header_bytes(self.header) + segments_bytes(self.segments@.take(
                    i as int,
                )));
            }
        }
        proof {
            assert(self.segments@.take(self.segments@.len() as int) =~= self.segments@);
        }
        let ghost body = header_bytes(self.header) + segments_bytes(self.segments@);
        let pos = out.len();
        let pad = 15 - (pos % 16);
        let mut k: usize = 0;
        proof {
            assert(out@ =~= body + Seq::new(0, |i: int| 0u8));
        }
        while k < pad
            invariant
                k <= pad,
                pad == 15 - (body.len() % 16),
                out@ == body + Seq::new(k as nat, |i: int| 0u8),
            decreases pad - k,
        {
            out.push(0);
            k = k + 1;
            proof {
                assert(out@ =~= body + Seq::new(k as nat, |i: int| 0u8));
            }
        }
        out.push(self.checksum);
        proof {
            assert(out@ =~= image_prefix_bytes(*self));
        }
        out
    }

    /// Encode the whole image, hash included when present.
    pub fn to_bytes(&self) -> (r: Vec<u8>)
        requires
            self.segments_encodable(),
        ensures
            r@ == image_bytes(*self),
    {
        let mut out = self.prefix_to_bytes();
        match &self.hash {
            Some(h) => {
                let mut k: usize = 0;
                proof {
                    assert(out@ =~= image_prefix_bytes(*self) + h@.take(0));
                }
                while k < 32
                    invariant
                        k <= 32,
                        out@ == image_prefix_bytes(*self) + h@.take(k as int),
                        self.hash == Some(*h),
                    decreases 32 - k,
                {
                    out.push(h[k]);
                    k = k + 1;
                    proof {
                        assert(h@.take(k as int) =~= h@.take(k as int - 1).push(
                            h@[k as int - 1],
                        ));
                        assert(out@ =~= image_prefix_bytes(*self) + h@.take(k as int));
                    }
                }
                proof {
                    assert(h@.take(32) =~= h@);
                    assert(out@ =~= image_bytes(*self));
                }
            },
            None => {
                proof {
                    assert(out@ =~= image_bytes(*self));
                }
            },
        }
        out
    }

    /// 0xEF XORed over every data byte of every segment.
    pub fn compute_checksum(&self) -> (r: u8)
        ensures
            r == image_checksum(self.segments@),
    {
        let mut sum: u8 = 0xEF;
        let mut i: usize = 0;
        proof {
            assert(self.segments@.take(0) =~= Seq::<EspImageSegment>::empty());
        }
        while i < self.segments.len()
            invariant
                i <= self.segments@.len(),
                sum == image_checksum(self.segments@.take(i as int)),
            decreases self.segments@.len() - i,
        {
            let seg = &self.segments[i];
            let mut j: usize = 0;
            proof {
                assert(seg.data@.take(0) =~= Seq::<u8>::empty());
            }
            while j < seg.data.len()
                invariant
                    j <= seg.data@.len(),
                    seg == self.segments@[i as int],
                    i < self.segments@.len(),
                    sum == seg_xor(
                        image_checksum(self.segments@.take(i as int)),
                        seg.data@.take(j as int),
                    ),
                decreases seg.data@.len() - j,
            {
                proof {
                    assert(seg.data@.take(j as int + 1).drop_last() =~= seg.data@.take(j as int));
                    assert(seg.data@.take(j as int + 1).last() == seg.data@[j as int]);
                }
                sum = sum ^ seg.data[j];
                j = j + 1;
            }
            i = i + 1;
            proof {
                assert(seg.data@.take(seg.data@.len() as int) =~= seg.data@);
                assert(self.segments@.take(i as int).drop_last() =~= self.segments@.take(
                    i as int - 1,
                ));
                assert(self.segments@.take(i as int).last() == self.segments@[i as int - 1]);
            }
        }
        proof {
            assert(self.segments@.take(self.segments@.len() as int) =~= self.segments@);
        }
        sum
    }

    /// The SHA-256 over everything before the hash field.
    pub fn compute_hash(&self) -> (r: [u8; 32])
        requires
            self.segments_encodable(),
        ensures
            r@ == sha256_of(image_prefix_bytes(*self)),
    {
        let prefix = self.prefix_to_bytes();
        sha256(prefix.as_slice())
    }

    /// Refresh the derived fields: the segment count, the
    /// hash-appended flag, the checksum and the hash.
    pub fn update_metadata(&mut self)
        requires
            old(self).segments@.len() <= 255,
            old(self).segments_encodable(),
        ensures
            final(self).header == (EspImageHeader {
                segment_count: old(self).segments@.len() as u8,
                hash_appended: 1,
                ..old(self).header
            }),
            final(self).segments == old(self).segments,
            final(self).checksum == image_checksum(old(self).segments@),
            final(self).hash matches Some(h) && h@ == sha256_of(image_prefix_bytes(*final(self))),
    {
        self.header.segment_count = self.segments.len() as u8;
        self.header.hash_appended = 1;
        let sum = self.compute_checksum();
        self.checksum = sum;
        let h = self.compute_hash();
        self.hash = Some(h);
    }
}

} // verus!
