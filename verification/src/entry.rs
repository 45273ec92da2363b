//! The partition entry codec: single entries and the variable-length
//! entry array referenced by the header.
//!
//! Wire layout per entry: partition type GUID at byte 0, partition
//! GUID at 16, starting LBA at 32, ending LBA at 40, attributes at
//! 48, the 16-byte name at 56; 72 significant bytes, anything beyond
//! up to the per-entry size reserved: ignored on decode, zero-filled
//! on encode.

use vstd::prelude::*;
use vstd::arithmetic::div_mod::{lemma_fundamental_div_mod, lemma_mod_pos_bound};
use vstd::arithmetic::mul::lemma_mul_inequality;
use vstd::bytes::{spec_u64_from_le_bytes, spec_u64_to_le_bytes};
use vstd::bytes::lemma_auto_spec_u64_to_from_le_bytes;
use vstd::slice::slice_subrange;

use crate::err::GptError;
use crate::parse::{pad_zero, push_bytes, push_u64, LittleEndianBytes};
use crate::uuid::{guid_bytes_ok, PartUUID};

verus! {

/// A 16-byte partition name, carried as an opaque byte blob: the
/// UTF-16 text the standard stores there is not interpreted.
#[derive(Debug, Clone, Copy, PartialEq, Eq, Default)]
pub struct PartName(pub [u8; 16]);

impl View for PartName {
    type V = Seq<u8>;

    open spec fn view(&self) -> Seq<u8> {
        self.0@
    }
}

impl PartName {
    /// The raw name bytes.
    pub fn as_bytes(&self) -> (r: &[u8])
        ensures
            r@ == self@,
    {
        self.0.as_slice()
    }
}

/// One partition entry.
#[derive(Debug, Clone, PartialEq, Eq, Default)]
pub struct PartEntry {
    /// GUID of the partition type.
    pub part_type_guid: PartUUID,
    /// GUID of this partition.
    pub part_guid: PartUUID,
    /// First LBA of the partition.
    pub starting_lba: u64,
    /// Last LBA of the partition.
    pub ending_lba: u64,
    /// Attribute flags; never validated.
    pub attributes: u64,
    /// The partition name bytes.
    pub name: PartName,
}

/// True exactly when an entry buffer decodes: both GUID fields pass
/// GUID construction.
pub open spec fn entry_valid(data: Seq<u8>) -> bool {
    &&& guid_bytes_ok(data.subrange(0, 16))
    &&& guid_bytes_ok(data.subrange(16, 32))
}

/// True when every field of `e` equals the value stored in `data`.
pub open spec fn entry_matches(e: PartEntry, data: Seq<u8>) -> bool {
    &&& e.part_type_guid@ == data.subrange(0, 16)
    &&& e.part_guid@ == data.subrange(16, 32)
    &&& e.starting_lba == spec_u64_from_le_bytes(data.subrange(32, 40))
    &&& e.ending_lba == spec_u64_from_le_bytes(data.subrange(40, 48))
    &&& e.attributes == spec_u64_from_le_bytes(data.subrange(48, 56))
    &&& e.name@ == data.subrange(56, 72)
}

/// The byte-exact encoding of one entry into `size` bytes: the 72
/// significant bytes followed by zero padding.
pub open spec fn entry_wire(e: PartEntry, size: int) -> Seq<u8>
    recommends
        size >= 72,
{
    e.part_type_guid@ + e.part_guid@ + spec_u64_to_le_bytes(e.starting_lba) + spec_u64_to_le_bytes(
        e.ending_lba,
    ) + spec_u64_to_le_bytes(e.attributes) + e.name@ + Seq::new((size - 72) as nat, |i: int| 0u8)
}

impl PartEntry {
    /// Decodes one entry from the first 72 bytes of its slice. The
    /// only way to fail is a GUID whose bytes are not all ASCII
    /// alphabetic; everything else is read without validation.
    pub fn deserialize(data: &[u8]) -> (r: Result<PartEntry, GptError>)
        requires
            data@.len() >= 72,
        ensures
            match r {
                Ok(e) => entry_valid(data@) && entry_matches(e, data@),
                Err(e) => !entry_valid(data@) && e == GptError::PartUUID,
            },
    {
        let mut ltbs = LittleEndianBytes::new(data);

        let type_bytes = ltbs.copy_from::<16>(0);
        let part_type_guid = match PartUUID::try_from(type_bytes.as_slice()) {
            Ok(g) => g,
            Err(e) => {
                return Err(e);
            },
        };
        let guid_bytes = ltbs.copy_from::<16>(16);
        let part_guid = match PartUUID::try_from(guid_bytes.as_slice()) {
            Ok(g) => g,
            Err(e) => {
                return Err(e);
            },
        };
        let starting_lba = ltbs.parse_u64().unwrap();
        let ending_lba = ltbs.parse_u64().unwrap();
        let attributes = ltbs.parse_u64().unwrap();
        let name = PartName(ltbs.copy_from::<16>(56));
        Ok(PartEntry { part_type_guid, part_guid, starting_lba, ending_lba, attributes, name })
    }

    /// Serializes every field verbatim into a fresh zero-padded
    /// buffer of `size` bytes, with no validation.
    pub fn serialize(&self, size: usize) -> (r: Vec<u8>)
        requires
            size >= 72,
        ensures
            r@ == entry_wire(*self, size as int),
            r@.len() == size,
    {
        let mut bytes: Vec<u8> = Vec::new();
        push_bytes(&mut bytes, self.part_type_guid.as_bytes());
        push_bytes(&mut bytes, self.part_guid.as_bytes());
        push_u64(&mut bytes, self.starting_lba);
        push_u64(&mut bytes, self.ending_lba);
        push_u64(&mut bytes, self.attributes);
        push_bytes(&mut bytes, self.name.as_bytes());
        proof {
            lemma_auto_spec_u64_to_from_le_bytes();
            assert(bytes@.len() == 72);
        }
        pad_zero(&mut bytes, size);
        proof {
            assert(bytes@ =~= entry_wire(*self, size as int));
        }
        bytes
    }
}

/// The ordered partition entry array.
#[derive(Debug, Clone, PartialEq, Eq)]
pub struct PartTableEntry {
    /// The decoded entries, one per full entry-size slice of the
    /// supplied buffer, in buffer order.
    pub entries: Vec<PartEntry>,
}

/// The entry-size slice of index `i` within an entry array buffer.
pub open spec fn table_slice(data: Seq<u8>, es: int, i: int) -> Seq<u8> {
    data.subrange(i * es, i * es + es)
}

/// The byte-exact encoding of an entry sequence: each entry encoded
/// into its own `es`-byte slice, concatenated in order.
pub open spec fn table_wire(entries: Seq<PartEntry>, es: int) -> Seq<u8>
    decreases entries.len(),
{
    if entries.len() == 0 {
        Seq::empty()
    } else {
        table_wire(entries.drop_last(), es) + entry_wire(entries.last(), es)
    }
}

impl PartTableEntry {
    /// Decodes an entry array buffer: the buffer is cut into
    /// non-overlapping slices of `part_entry_size` bytes, a short
    /// trailing remainder is silently dropped, and each slice is
    /// decoded in order. The first slice whose GUIDs fail validation
    /// aborts the whole decode.
    pub fn generate_part_entries(data: &[u8], part_entry_size: usize) -> (r: Result<
        PartTableEntry,
        GptError,
    >)
        requires
            part_entry_size >= 72,
        ensures
            ({
                let n = data@.len() as int / part_entry_size as int;
                match r {
                    Ok(t) => {
                        &&& t.entries@.len() == n
                        &&& forall|i: int|
                            0 <= i < n ==> entry_valid(
                                #[trigger] table_slice(data@, part_entry_size as int, i),
                            ) && entry_matches(
                                t.entries@[i],
                                table_slice(data@, part_entry_size as int, i),
                            )
                    },
                    Err(e) => {
                        &&& !(forall|i: int|
                            0 <= i < n ==> entry_valid(
                                #[trigger] table_slice(data@, part_entry_size as int, i),
                            ))
                        &&& e == GptError::PartUUID
                    },
                }
            }),
    {
        let part_entry_num = data.len() / part_entry_size;
        proof {
            lemma_fundamental_div_mod(data@.len() as int, part_entry_size as int);
            lemma_mod_pos_bound(data@.len() as int, part_entry_size as int);
            let n = data@.len() as int / part_entry_size as int;
            let m = data@.len() as int % part_entry_size as int;
            assert(n * part_entry_size <= data@.len()) by (nonlinear_arith)
                requires
                    data@.len() as int == part_entry_size as int * n + m,
                    m >= 0,
            ;
        }
        let mut entries: Vec<PartEntry> = Vec::new();
        let mut index: usize = 0;
        while index < part_entry_num
            invariant
                index <= part_entry_num,
                part_entry_size >= 72,
                part_entry_num == data@.len() as int / part_entry_size as int,
                part_entry_num * part_entry_size <= data@.len(),
                data@.len() <= usize::MAX,
                entries@.len() == index,
                forall|i: int|
                    0 <= i < index ==> entry_valid(
                        #[trigger] table_slice(data@, part_entry_size as int, i),
                    ) && entry_matches(entries@[i], table_slice(data@, part_entry_size as int, i)),
            decreases part_entry_num - index,
        {
            proof {
                lemma_mul_inequality(
                    index + 1,
                    part_entry_num as int,
                    part_entry_size as int,
                );
                assert((index + 1) * part_entry_size == index * part_entry_size
                    + part_entry_size) by (nonlinear_arith);
            }
            let start = index * part_entry_size;
            let slice = slice_subrange(data, start, start + part_entry_size);
            let entry = match PartEntry::deserialize(slice) {
                Ok(e) => e,
                Err(e) => {
                    proof {
                        assert(!entry_valid(
                            table_slice(data@, part_entry_size as int, index as int),
                        ));
                    }
                    return Err(e);
                },
            };
            entries.push(entry);
            index = index + 1;
        }
        Ok(PartTableEntry { entries })
    }

    /// Serializes every entry into its own zero-padded slice of
    /// `part_entry_size` bytes, in order, with no validation.
    pub fn serialize_part_entries(&self, part_entry_size: usize) -> (r: Vec<u8>)
        requires
            part_entry_size >= 72,
            self.entries@.len() * part_entry_size <= usize::MAX,
        ensures
            r@ == table_wire(self.entries@, part_entry_size as int),
            r@.len() == self.entries@.len() * part_entry_size,
    {
        let n = self.entries.len();
        let mut bytes: Vec<u8> = Vec::new();
        let mut index: usize = 0;
        while index < n
            invariant
                index <= n,
                part_entry_size >= 72,
                n == self.entries@.len(),
                n * part_entry_size <= usize::MAX,
                bytes@ == table_wire(self.entries@.subrange(0, index as int), part_entry_size as int),
                bytes@.len() == index * part_entry_size,
            decreases n - index,
        {
            proof {
                lemma_mul_inequality(index + 1, n as int, part_entry_size as int);
                assert((index + 1) * part_entry_size == index * part_entry_size
                    + part_entry_size) by (nonlinear_arith);
            }
            let piece = self.entries[index].serialize(part_entry_size);
            push_bytes(&mut bytes, piece.as_slice());
            proof {
                let pre = self.entries@.subrange(0, index as int);
                let post = self.entries@.subrange(0, index + 1);
                assert(post.drop_last() =~= pre);
                assert(post.last() == self.entries@[index as int]);
            }
            index = index + 1;
        }
        proof {
            assert(self.entries@.subrange(0, n as int) =~= self.entries@);
        }
        bytes
    }
}

/// The entry round-trip law: encoding an entry whose GUIDs are
/// well-formed yields a slice that decodes again, and whatever
/// decodes from that slice matches the original field for field.
pub proof fn lemma_entry_round_trip(e: PartEntry, size: int)
    requires
        e.part_type_guid.wf(),
        e.part_guid.wf(),
        size >= 72,
    ensures
        entry_valid(entry_wire(e, size)),
        entry_matches(e, entry_wire(e, size)),
{
    lemma_auto_spec_u64_to_from_le_bytes();
    let w = entry_wire(e, size);
    assert(w.subrange(0, 16) =~= e.part_type_guid@);
    assert(w.subrange(16, 32) =~= e.part_guid@);
    assert(w.subrange(32, 40) =~= spec_u64_to_le_bytes(e.starting_lba));
    assert(w.subrange(40, 48) =~= spec_u64_to_le_bytes(e.ending_lba));
    assert(w.subrange(48, 56) =~= spec_u64_to_le_bytes(e.attributes));
    assert(w.subrange(56, 72) =~= e.name@);
}

/// The slice of index `i` of an encoded entry sequence is exactly the
/// encoding of entry `i`, and the whole encoding has one full slice
/// per entry.
pub proof fn lemma_table_wire_slices(entries: Seq<PartEntry>, es: int)
    requires
        es >= 72,
    ensures
        table_wire(entries, es).len() == entries.len() * es,
        forall|i: int|
            0 <= i < entries.len() ==> #[trigger] table_slice(table_wire(entries, es), es, i)
                == entry_wire(entries[i], es),
    decreases entries.len(),
{
    if entries.len() == 0 {
    } else {
        let pre = entries.drop_last();
        lemma_table_wire_slices(pre, es);
        lemma_entry_wire_len(entries.last(), es);
        assert(entries.len() * es == pre.len() * es + es) by (nonlinear_arith)
            requires
                entries.len() == pre.len() + 1,
        ;
        let w = table_wire(entries, es);
        assert forall|i: int| 0 <= i < entries.len() implies #[trigger] table_slice(w, es, i)
            == entry_wire(entries[i], es) by {
            assert(0 <= i * es) by (nonlinear_arith)
                requires
                    i >= 0,
                    es > 0,
            ;
            assert(i < pre.len() ==> i * es + es <= pre.len() * es) by (nonlinear_arith)
                requires
                    es > 0,
            ;
            if i < pre.len() {
                assert(table_slice(w, es, i) =~= table_slice(table_wire(pre, es), es, i));
                assert(entries[i] == pre[i]);
            } else {
                assert(i == pre.len());
                assert(table_slice(w, es, i) =~= entry_wire(entries.last(), es));
            }
        }
    }
}

/// The length of one encoded entry.
proof fn lemma_entry_wire_len(e: PartEntry, size: int)
    requires
        size >= 72,
    ensures
        entry_wire(e, size).len() == size,
{
    lemma_auto_spec_u64_to_from_le_bytes();
}

/// The table round-trip law: encoding entries whose GUIDs are
/// well-formed yields a buffer that decodes again into exactly as
/// many entries, each matching the original field for field.
pub proof fn lemma_table_round_trip(entries: Seq<PartEntry>, es: int)
    requires
        es >= 72,
        forall|i: int|
            0 <= i < entries.len() ==> (#[trigger] entries[i]).part_type_guid.wf()
                && entries[i].part_guid.wf(),
    ensures
        table_wire(entries, es).len() == entries.len() * es,
        table_wire(entries, es).len() as int / es == entries.len(),
        forall|i: int|
            0 <= i < entries.len() ==> entry_valid(
                #[trigger] table_slice(table_wire(entries, es), es, i),
            ) && entry_matches(entries[i], table_slice(table_wire(entries, es), es, i)),
{
    lemma_table_wire_slices(entries, es);
    assert(entries.len() * es as int / es == entries.len()) by (nonlinear_arith)
        requires
            es > 0,
    ;
    assert forall|i: int| 0 <= i < entries.len() implies entry_valid(
        #[trigger] table_slice(table_wire(entries, es), es, i),
    ) && entry_matches(entries[i], table_slice(table_wire(entries, es), es, i)) by {
        lemma_entry_round_trip(entries[i], es);
    }
}

} // verus!
