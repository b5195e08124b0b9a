//! Partition tables: 32-byte records introduced by a two-byte magic,
//! ending with the table's MD5 record.

use vstd::prelude::*;
use vstd::string::StringExecFns;

use crate::stub::le32_at;
use crate::{Error, FormatError};

verus! {

pub const TYPE_APP: u8 = 0;

pub const SUBTYPE_APP_FACTORY: u8 = 0;

pub const SUBTYPE_APP_TEST: u8 = 0x20;

pub const TYPE_DATA: u8 = 1;

pub const SUBTYPE_DATA_OTA: u8 = 0;

pub const SUBTYPE_DATA_PHY: u8 = 1;

pub const SUBTYPE_DATA_NVS: u8 = 2;

pub const SUBTYPE_DATA_COREDUMP: u8 = 3;

pub const SUBTYPE_DATA_NVS_KEYS: u8 = 4;

pub const SUBTYPE_DATA_EFUSE_EM: u8 = 5;

pub const SUBTYPE_DATA_ESPHTTPD: u8 = 0x80;

pub const SUBTYPE_DATA_FAT: u8 = 0x81;

pub const SUBTYPE_DATA_SPIFFS: u8 = 0x82;

/// One record of a partition table.
#[derive(Clone, Debug, PartialEq, Eq)]
pub enum PartitionEntry {
    /// A partition: type, subtype, offset, size, a 16-byte label, flags.
    Partition { type_: u8, subtype: u8, offset: u32, size: u32, label: [u8; 16], flags: u32 },
    /// The closing record: the MD5 digest of the records before it.
    Hash { digest: [u8; 16] },
}

/// A parsed partition table: every record up to and including the hash
/// record.
#[derive(Clone, Debug, PartialEq, Eq)]
pub struct EspPartitionTable {
    pub entries: Vec<PartitionEntry>,
}

/// A partition record's magic at `off`.
pub open spec fn partition_magic_at(b: Seq<u8>, off: int) -> bool {
    b[off] == 0xAA && b[off + 1] == 0x50
}

/// A hash record's magic at `off`.
pub open spec fn hash_magic_at(b: Seq<u8>, off: int) -> bool {
    b[off] == 0xEB && b[off + 1] == 0xEB
}

/// The `i`-th record carries the partition magic.
pub open spec fn partition_magic_rec(b: Seq<u8>, i: int) -> bool {
    partition_magic_at(b, 32 * i)
}

/// A well-formed table of `n` records: the first `n-1` carry the
/// partition magic, the last the hash magic, all within the blob.
pub open spec fn table_wf_n(b: Seq<u8>, n: int) -> bool {
    &&& n >= 1
    &&& 32 * n <= b.len()
    &&& (forall|i: int| 0 <= i < n - 1 ==> #[trigger] partition_magic_rec(b, i))
    &&& hash_magic_at(b, 32 * (n - 1))
}

/// A well-formed table: some record count works.
pub open spec fn table_wf(b: Seq<u8>) -> bool {
    exists|n: int| table_wf_n(b, n)
}

/// The entry parsed from the partition record at `off`.
pub open spec fn partition_entry_matches(e: PartitionEntry, b: Seq<u8>, off: int) -> bool {
    e matches PartitionEntry::Partition { type_, subtype, offset, size, label, flags } && {
        &&& type_ == b[off + 2]
        &&& subtype == b[off + 3]
        &&& offset == le32_at(b, off + 4)
        &&& size == le32_at(b, off + 8)
        &&& label@ == b.subrange(off + 12, off + 28)
        &&& flags == le32_at(b, off + 28)
    }
}

/// The entry parsed from the hash record at `off`.
pub open spec fn hash_entry_matches(e: PartitionEntry, b: Seq<u8>, off: int) -> bool {
    e matches PartitionEntry::Hash { digest } && digest@ == b.subrange(off + 16, off + 32)
}

/// Copy 16 bytes at `off` into an array.
fn read_16(b: &[u8], off: usize) -> (r: [u8; 16])
    requires
        off + 16 <= b@.len(),
    ensures
        r@ == b@.subrange(off as int, off as int + 16),
{
    let r = [
        b[off], b[off + 1], b[off + 2], b[off + 3], b[off + 4], b[off + 5], b[off + 6],
        b[off + 7], b[off + 8], b[off + 9], b[off + 10], b[off + 11], b[off + 12], b[off + 13],
        b[off + 14], b[off + 15],
    ];
    proof {
        assert(r@ =~= b@.subrange(off as int, off as int + 16));
    }
    r
}

/// Parse a partition table: records of 32 bytes, partition records up
/// to the closing hash record.  A record with neither magic, or input
/// that ends before the hash record, is malformed.
pub fn parse_table(blob: &[u8]) -> (r: Result<EspPartitionTable, Error>)
    ensures
        r is Ok <==> table_wf(blob@),
        r matches Ok(t) ==> ({
            let n = t.entries@.len() as int;
            &&& table_wf_n(blob@, n)
            &&& (forall|i: int|
                0 <= i < n - 1 ==> partition_entry_matches(#[trigger] t.entries@[i], blob@, 32 * i))
            &&& hash_entry_matches(t.entries@[n - 1], blob@, 32 * (n - 1))
        }),
        r matches Err(e) ==> e == Error::Format(FormatError::InvalidPartitionTable),
{
    let total = blob.len();
    let mut entries: Vec<PartitionEntry> = Vec::new();
    let mut i: usize = 0;
    loop
        invariant
            total == blob@.len(),
            entries@.len() == i,
            32 * i <= blob@.len(),
            forall|m: int| 0 <= m < i ==> #[trigger] partition_magic_rec(blob@, m),
            forall|m: int|
                0 <= m < i ==> partition_entry_matches(#[trigger] entries@[m], blob@, 32 * m),
        decreases blob@.len() - 32 * i,
    {
        let off = 32 * i;
        if blob.len() - off < 32 {
            proof {
                assert forall|n: int| !table_wf_n(blob@, n) by {
                    if table_wf_n(blob@, n) {
                        if n <= i {
                            assert(partition_magic_rec(blob@, n - 1));
                            assert(hash_magic_at(blob@, 32 * (n - 1)));
                        } else {
                            assert(32 * n >= 32 * (i as int + 1));
                        }
                    }
                }
            }
            return Err(Error::Format(FormatError::InvalidPartitionTable));
        }
        if blob[off] == 0xAA && blob[off + 1] == 0x50 {
            let label = read_16(blob, off + 12);
            let entry = PartitionEntry::Partition {
                type_: blob[off + 2],
                subtype: blob[off + 3],
                offset: crate::from_le32(vstd::slice::slice_subrange(blob, off + 4, off + 8)),
                size: crate::from_le32(vstd::slice::slice_subrange(blob, off + 8, off + 12)),
                label,
                flags: crate::from_le32(vstd::slice::slice_subrange(blob, off + 28, off + 32)),
            };
            entries.push(entry);
            i = i + 1;
        } else if blob[off] == 0xEB && blob[off + 1] == 0xEB {
            let digest = read_16(blob, off + 16);
            entries.push(PartitionEntry::Hash { digest });
            proof {
                assert(table_wf_n(blob@, i as int + 1));
            }
            return Ok(EspPartitionTable { entries });
        } else {
            proof {
                assert forall|n: int| !table_wf_n(blob@, n) by {
                    if table_wf_n(blob@, n) {
                        if n <= i {
                            assert(partition_magic_rec(blob@, n - 1));
                            assert(hash_magic_at(blob@, 32 * (n - 1)));
                        } else if n == i + 1 {
                            assert(hash_magic_at(blob@, 32 * (i as int)));
                        } else {
                            assert(partition_magic_rec(blob@, i as int));
                        }
                    }
                }
            }
            return Err(Error::Format(FormatError::InvalidPartitionTable));
        }
    }
}

/// The display names of a type/subtype pair, hexadecimal for the
/// unnamed ones.
pub fn partition_type_names(type_: u8, subtype: u8) -> (r: (String, String)) {
    if type_ == TYPE_APP {
        let sub = if subtype == SUBTYPE_APP_FACTORY {
            String::from_str("factory")
        } else if 0x10 <= subtype && subtype <= 0x1F {
            let mut s = String::from_str("ota");
            let h = crate::event::hex_byte(subtype);
            s.append(h.as_str());
            s
        } else if subtype == SUBTYPE_APP_TEST {
            String::from_str("test")
        } else {
            hex_name(subtype)
        };
        (String::from_str("app"), sub)
    } else if type_ == TYPE_DATA {
        let sub = if subtype == SUBTYPE_DATA_OTA {
            String::from_str("ota")
        } else if subtype == SUBTYPE_DATA_PHY {
            String::from_str("phy")
        } else if subtype == SUBTYPE_DATA_NVS {
            String::from_str("nvs")
        } else if subtype == SUBTYPE_DATA_COREDUMP {
            String::from_str("coredump")
        } else if subtype == SUBTYPE_DATA_NVS_KEYS {
            String::from_str("nvs_keys")
        } else if subtype == SUBTYPE_DATA_EFUSE_EM {
            String::from_str("efuse")
        } else if subtype == SUBTYPE_DATA_ESPHTTPD {
            String::from_str("esphttpd")
        } else if subtype == SUBTYPE_DATA_FAT {
            String::from_str("fat")
        } else if subtype == SUBTYPE_DATA_SPIFFS {
            String::from_str("spiffs")
        } else {
            hex_name(subtype)
        };
        (String::from_str("data"), sub)
    } else {
        (hex_name(type_), hex_name(subtype))
    }
}

/// `0x` followed by the two hex digits of `x`.
fn hex_name(x: u8) -> (r: String) {
    let mut s = String::from_str("0x");
    let h = crate::event::hex_byte(x);
    s.append(h.as_str());
    s
}

} // verus!
