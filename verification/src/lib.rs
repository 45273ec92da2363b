//! A byte-exact codec for the on-disk structures of the GUID Partition
//! Table scheme: the protective MBR, the GPT header, and the partition
//! entry array, together with the mixed-endian GUID text form.
//!
//! All multi-byte integer fields are little-endian on the wire.

pub mod checksum;
pub mod entry;
pub mod err;
pub mod gpt;
pub mod hdr;
pub mod mbr;
pub mod parse;
pub mod uuid;

pub use entry::{PartEntry, PartName, PartTableEntry};
pub use err::GptError;
pub use gpt::{GuidPartTable, LogicalBlockSize};
pub use hdr::Header;
pub use mbr::{MbrPartRecord, ProtectiveMbr};
pub use parse::LittleEndianBytes;
pub use uuid::PartUUID;
