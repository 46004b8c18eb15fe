//! The metadata entry that accompanies a partitioned value: how many
//! chunks it occupies and whether the payload is binary-encoded.
//! It is written as the canonical structured text
//! `{"isBinaryEncoded":<bool>,"partitionCount":<int>}` (keys in
//! lexicographic order, no whitespace, no leading zeros), and read
//! back from any structured text carrying the two fields, whatever its
//! key order or spacing, so that entries written by other producers of
//! the wire layout read back too.

use vstd::prelude::*;

use crate::errors::CacheError;
use crate::numeric::{dec_bytes, push_dec_bytes};

verus! {

/// What the metadata entry records about a partitioned value.
#[derive(Debug, Clone, Copy, PartialEq, Eq, Structural)]
pub struct PartitionMeta {
    /// How many chunk entries the value occupies; at least 1.
    pub partition_count: usize,
    /// Whether the payload is in the binary self-describing format
    /// (otherwise it is text to be read as UTF-8 or structured text).
    pub is_binary_encoded: bool,
}

/// The bytes of `{"isBinaryEncoded":`.
pub open spec fn meta_prefix() -> Seq<u8> {
    seq![123u8, 34, 105, 115, 66, 105, 110, 97, 114, 121, 69, 110, 99, 111, 100, 101, 100, 34, 58]
}

/// The bytes of a bare boolean.
pub open spec fn bool_bytes(b: bool) -> Seq<u8> {
    if b {
        seq![116u8, 114, 117, 101]
    } else {
        seq![102u8, 97, 108, 115, 101]
    }
}

/// The bytes of `,"partitionCount":`.
pub open spec fn meta_infix() -> Seq<u8> {
    seq![44u8, 34, 112, 97, 114, 116, 105, 116, 105, 111, 110, 67, 111, 117, 110, 116, 34, 58]
}

/// The canonical wire text of a metadata entry.
pub open spec fn spec_metadata_bytes(count: nat, is_binary: bool) -> Seq<u8> {
    meta_prefix() + bool_bytes(is_binary) + meta_infix() + dec_bytes(count) + seq![125u8]
}

/// Whether `bytes` is the canonical wire text of `m`.
pub open spec fn is_canonical_metadata(bytes: Seq<u8>, m: PartitionMeta) -> bool {
    bytes == spec_metadata_bytes(m.partition_count as nat, m.is_binary_encoded)
}


fn decode_error() -> (r: CacheError)
    ensures
        r is Decode,
{
    CacheError::Decode(String::from_str("malformed partition metadata"))
}

/// Writes the canonical metadata text for `meta`.
pub fn encode_metadata(meta: &PartitionMeta) -> (r: Vec<u8>)
    ensures
        r@ == spec_metadata_bytes(meta.partition_count as nat, meta.is_binary_encoded),
        is_canonical_metadata(r@, *meta),
{
    let mut v: Vec<u8> = Vec::new();
    v.push(123);
    v.push(34);
    v.push(105);
    v.push(115);
    v.push(66);
    v.push(105);
    v.push(110);
    v.push(97);
    v.push(114);
    v.push(121);
    v.push(69);
    v.push(110);
    v.push(99);
    v.push(111);
    v.push(100);
    v.push(101);
    v.push(100);
    v.push(34);
    v.push(58);
    if meta.is_binary_encoded {
        v.push(116);
        v.push(114);
        v.push(117);
        v.push(101);
    } else {
        v.push(102);
        v.push(97);
        v.push(108);
        v.push(115);
        v.push(101);
    }
    v.push(44);
    v.push(34);
    v.push(112);
    v.push(97);
    v.push(114);
    v.push(116);
    v.push(105);
    v.push(116);
    v.push(105);
    v.push(111);
    v.push(110);
    v.push(67);
    v.push(111);
    v.push(117);
    v.push(110);
    v.push(116);
    v.push(34);
    v.push(58);
    push_dec_bytes(&mut v, meta.partition_count as u64);
    v.push(125);
    proof {
        assert(v@ =~= spec_metadata_bytes(meta.partition_count as nat, meta.is_binary_encoded));
    }
    v
}

/// What reading a metadata text yields: the object's partition count
/// and binary-encoding flag (the flag absent meaning false), or
/// nothing where the bytes are not a structured-text object carrying a
/// machine-representable count.
pub uninterp spec fn metadata_read_of(bytes: Seq<u8>) -> Option<PartitionMeta>;

/// Relies on serde_json::from_slice: reads the metadata object,
/// accepting any key order and spacing. `partitionCount` must be a
/// non-negative integer that fits the machine word; `isBinaryEncoded`
/// counts as false where absent or not a boolean, as the consumers of
/// this entry have always read it. The result depends on the bytes
/// alone, and the canonical text that `encode_metadata` writes reads
/// back as its own value.
#[verifier::external_body]
fn read_metadata_text(bytes: &Vec<u8>) -> (r: Option<PartitionMeta>)
    ensures
        r == metadata_read_of(bytes@),
        forall|m: PartitionMeta| #[trigger] is_canonical_metadata(bytes@, m) ==> r == Some(m),
{
    let parsed: serde_json::Value = match serde_json::from_slice(bytes) {
        Ok(v) => v,
        Err(_) => return None,
    };
    let partition_count = match parsed.get("partitionCount") {
        Some(c) => match c.as_u64() {
            Some(n) if n <= usize::MAX as u64 => n as usize,
            _ => return None,
        },
        None => return None,
    };
    let is_binary_encoded =
        matches!(parsed.get("isBinaryEncoded"), Some(serde_json::Value::Bool(true)));
    Some(PartitionMeta { partition_count, is_binary_encoded })
}

/// Reads a metadata entry back from its wire text: any structured text
/// carrying the two fields is accepted, whatever its key order or
/// spacing — in particular the canonical text `encode_metadata` writes
/// reads back as its own value. Anything else is a decode failure.
pub fn parse_metadata(bytes: &Vec<u8>) -> (r: Result<PartitionMeta, CacheError>)
    ensures
        r matches Ok(m) ==> metadata_read_of(bytes@) == Some(m),
        r is Ok <==> metadata_read_of(bytes@) is Some,
        forall|m: PartitionMeta|
            #[trigger] is_canonical_metadata(bytes@, m) ==> r == Ok::<PartitionMeta, CacheError>(
                m,
            ),
        r matches Err(e) ==> e is Decode,
{
    match read_metadata_text(bytes) {
        Some(m) => Ok(m),
        None => Err(decode_error()),
    }
}

} // verus!
