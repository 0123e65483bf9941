//! One chunk of content-addressed data as the chunk list describes it.
use vstd::prelude::*;

use crate::shared::{enc_guid, FGuid, FSHAHash};
use crate::wire::{enc_i64, enc_u32, enc_u64, enc_u8};
use crate::writer::ByteWriter;

verus! {

/// Ghost image of a chunk record.
#[verifier::ext_equal]
pub ghost struct ChunkInfoModel {
    pub guid: FGuid,
    pub hash: u64,
    pub sha_hash: Seq<u8>,
    pub group_num: u8,
    pub uncompressed_size: u32,
    pub compressed_size: i64,
}

/// A chunk: GUID identity, 64-bit rolling hash, SHA-1, group number and the
/// two sizes.
#[derive(Debug, Clone)]
pub struct FChunkInfo {
    pub guid: FGuid,
    pub hash: u64,
    pub sha_hash: FSHAHash,
    pub group_num: u8,
    pub uncompressed_size: u32,
    pub compressed_size: i64,
}

impl View for FChunkInfo {
    type V = ChunkInfoModel;

    open spec fn view(&self) -> ChunkInfoModel {
        ChunkInfoModel {
            guid: self.guid,
            hash: self.hash,
            sha_hash: self.sha_hash@,
            group_num: self.group_num,
            uncompressed_size: self.uncompressed_size,
            compressed_size: self.compressed_size,
        }
    }
}

impl DeepView for FChunkInfo {
    type V = ChunkInfoModel;

    open spec fn deep_view(&self) -> ChunkInfoModel {
        self@
    }
}

impl PartialEq for FChunkInfo {
    /// Chunks compare by identity: their GUID.
    fn eq(&self, other: &Self) -> bool {
        self.guid == other.guid
    }
}

impl vstd::std_specs::cmp::PartialEqSpecImpl for FChunkInfo {
    open spec fn obeys_eq_spec() -> bool {
        true
    }

    open spec fn eq_spec(&self, other: &Self) -> bool {
        self@.guid == other@.guid
    }
}

impl FChunkInfo {
    /// Builds a chunk record from its fields.
    pub fn new(
        guid: FGuid,
        hash: u64,
        sha_hash: FSHAHash,
        group_num: u8,
        uncompressed_size: u32,
        compressed_size: i64,
    ) -> (r: FChunkInfo)
        ensures
            r@ == (ChunkInfoModel {
                guid,
                hash,
                sha_hash: sha_hash@,
                group_num,
                uncompressed_size,
                compressed_size,
            }),
    {
        FChunkInfo { guid, hash, sha_hash, group_num, uncompressed_size, compressed_size }
    }

    /// The chunk's GUID.
    pub fn guid(&self) -> (r: &FGuid)
        ensures
            *r == self@.guid,
    {
        &self.guid
    }

    /// The 64-bit rolling hash.
    pub fn hash(&self) -> (r: u64)
        ensures
            r == self@.hash,
    {
        self.hash
    }

    /// The SHA-1 of the chunk data.
    pub fn sha_hash(&self) -> (r: &FSHAHash)
        ensures
            r@ == self@.sha_hash,
    {
        &self.sha_hash
    }

    /// The group number.
    pub fn group_num(&self) -> (r: u8)
        ensures
            r == self@.group_num,
    {
        self.group_num
    }

    /// The uncompressed chunk size.
    pub fn uncompressed_size(&self) -> (r: u32)
        ensures
            r == self@.uncompressed_size,
    {
        self.uncompressed_size
    }

    /// The compressed chunk size.
    pub fn compressed_size(&self) -> (r: i64)
        ensures
            r == self@.compressed_size,
    {
        self.compressed_size
    }

    /// Writes the whole record field by field (entry-major, as a standalone
    /// record; the chunk list itself writes column-major).
    pub fn write(&self, writer: &mut ByteWriter)
        ensures
            final(writer)@ == old(writer)@ + enc_chunk_record(self@),
    {
        self.guid.write(writer);
        writer.write_u64(self.hash);
        self.sha_hash.write(writer);
        writer.write_u8(self.group_num);
        writer.write_u32(self.uncompressed_size);
        writer.write_i64(self.compressed_size);
        proof {
            assert(writer@ =~= old(writer)@ + enc_chunk_record(self@));
        }
    }
}

/// The bytes of a standalone entry-major chunk record.
pub open spec fn enc_chunk_record(c: ChunkInfoModel) -> Seq<u8> {
    enc_guid(c.guid) + enc_u64(c.hash) + c.sha_hash + enc_u8(c.group_num) + enc_u32(
        c.uncompressed_size,
    ) + enc_i64(c.compressed_size)
}

/// Column projections of a chunk sequence, in the order the list stores
/// them.
pub open spec fn guid_col(s: Seq<ChunkInfoModel>) -> Seq<FGuid> {
    s.map_values(|c: ChunkInfoModel| c.guid)
}

pub open spec fn hash_col(s: Seq<ChunkInfoModel>) -> Seq<u64> {
    s.map_values(|c: ChunkInfoModel| c.hash)
}

pub open spec fn sha_col(s: Seq<ChunkInfoModel>) -> Seq<Seq<u8>> {
    s.map_values(|c: ChunkInfoModel| c.sha_hash)
}

pub open spec fn group_col(s: Seq<ChunkInfoModel>) -> Seq<u8> {
    s.map_values(|c: ChunkInfoModel| c.group_num)
}

pub open spec fn unc_size_col(s: Seq<ChunkInfoModel>) -> Seq<u32> {
    s.map_values(|c: ChunkInfoModel| c.uncompressed_size)
}

pub open spec fn comp_size_col(s: Seq<ChunkInfoModel>) -> Seq<i64> {
    s.map_values(|c: ChunkInfoModel| c.compressed_size)
}

/// What a chunk's rolling hash renders as: uppercase hexadecimal
/// zero-padded to sixteen digits.
pub open spec fn spec_hash_str(h: u64) -> Seq<char> {
    crate::helper::pad_left(crate::helper::to_hex_spec(h), 16)
}

/// What a group number renders as: decimal, zero-padded to two digits.
pub open spec fn spec_group_num_str(g: u8) -> Seq<char> {
    if g < 10 {
        seq!['0', crate::helper::dec_digit(g as int)]
    } else if g < 100 {
        seq![crate::helper::dec_digit(g as int / 10), crate::helper::dec_digit(g as int % 10)]
    } else {
        seq![
            crate::helper::dec_digit(g as int / 100),
            crate::helper::dec_digit((g as int / 10) % 10),
            crate::helper::dec_digit(g as int % 10),
        ]
    }
}

impl FChunkInfo {
    /// Renders the rolling hash as sixteen uppercase hexadecimal digits.
    pub fn hash_str(&self) -> (r: String)
        ensures
            r@ == spec_hash_str(self@.hash),
    {
        proof {
            reveal_with_fuel(crate::helper::pow16, 17);
            crate::helper::lemma_hex_digits_len(self.hash, 16);
        }
        crate::helper::pad_left_exec(crate::helper::to_hex(self.hash), 16)
    }

    /// Renders the group number as decimal, zero-padded to two digits.
    pub fn group_num_str(&self) -> (r: String)
        ensures
            r@ == spec_group_num_str(self@.group_num),
    {
        let g = self.group_num;
        let mut r = String::new();
        if g < 10 {
            r.append("0");
            r.append(crate::helper::decimal_digit(g as u64));
            proof {
                reveal_strlit("0");
                assert(r@ =~= spec_group_num_str(g));
            }
        } else if g < 100 {
            r.append(crate::helper::decimal_digit(g as u64 / 10));
            r.append(crate::helper::decimal_digit(g as u64 % 10));
            proof {
                assert(r@ =~= spec_group_num_str(g));
            }
        } else {
            r.append(crate::helper::decimal_digit(g as u64 / 100));
            r.append(crate::helper::decimal_digit((g as u64 / 10) % 10));
            r.append(crate::helper::decimal_digit(g as u64 % 10));
            proof {
                assert(r@ =~= spec_group_num_str(g));
            }
        }
        r
    }
}

impl crate::writer::ByteWritable for FChunkInfo {
    open spec fn wire_bytes(&self) -> Seq<u8> {
        enc_chunk_record(self@)
    }

    fn write(&self, writer: &mut ByteWriter) {
        FChunkInfo::write(self, writer);
    }
}

} // verus!
