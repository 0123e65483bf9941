//! The header of an on-disk chunk payload file: an independent format with
//! its own magic, version-gated fields, and a storage flag for the payload.
use vstd::prelude::*;

use crate::reader::ByteReader;
use crate::shared::{
    sp_guid, EChunkHashFlags, EChunkStorageFlags, EChunkVersion, FGuid, FSHAHash,
};
use crate::trusted::{inflate_of, zlib_inflate};
use crate::wire::{sp_bytes, sp_i32, sp_u32, sp_u64, sp_u8};
use crate::{ParseError, ParseResult};

verus! {

/// The magic value that opens every chunk payload file.
pub const CHUNK_MAGIC: u32 = 0xB1FE3AA2;

/// Ghost image of a chunk file header.  The version, storage flag and hash
/// type are their numeric wire values.
#[verifier::ext_equal]
pub ghost struct ChunkHeaderModel {
    pub magic: u32,
    pub version: i32,
    pub header_size: u32,
    pub data_size_compressed: u32,
    pub guid: FGuid,
    pub rolling_hash: u64,
    pub stored_as: u8,
    pub hash_type: Option<u8>,
    pub data_size_uncompressed: Option<u32>,
    pub sha_hash: Option<Seq<u8>>,
}

/// Reading a chunk file header; fields from `StoresShaAndHashType` (2) and
/// `StoresDataSizeUncompressed` (3) onward are version-gated, and the
/// cursor must land at `start + header_size`.
pub open spec fn sp_chunk_header(b: Seq<u8>, pos: int) -> Result<(ChunkHeaderModel, int), ParseError> {
    match sp_u32(b, pos) {
        Ok((magic, p1)) => {
            if magic != CHUNK_MAGIC {
                Err(ParseError::InvalidMagic)
            } else {
                match sp_i32(b, p1) {
                    Ok((ver_raw, p2)) => match sp_u32(b, p2) {
                        Ok((header_size, p3)) => match sp_u32(b, p3) {
                            Ok((dsc, p4)) => match sp_guid(b, p4) {
                                Ok((guid, p5)) => match sp_u64(b, p5) {
                                    Ok((rolling_hash, p6)) => match sp_u8(b, p6) {
                                        Ok((flag, p7)) => {
                                            if flag > 2 {
                                                Err(ParseError::InvalidStorageFlag)
                                            } else {
                                                sp_chunk_header_tail(
                                                    b,
                                                    pos,
                                                    magic,
                                                    EChunkVersion::spec_from_i32(
                                                        ver_raw,
                                                    ).spec_to_i32(),
                                                    header_size,
                                                    dsc,
                                                    guid,
                                                    rolling_hash,
                                                    flag,
                                                    p7,
                                                )
                                            }
                                        },
                                        Err(e) => Err(e),
                                    },
                                    Err(e) => Err(e),
                                },
                                Err(e) => Err(e),
                            },
                            Err(e) => Err(e),
                        },
                        Err(e) => Err(e),
                    },
                    Err(e) => Err(e),
                }
            }
        },
        Err(e) => Err(e),
    }
}

/// The version-gated tail of a chunk file header, then the size check.
pub open spec fn sp_chunk_header_tail(
    b: Seq<u8>,
    pos: int,
    magic: u32,
    version: i32,
    header_size: u32,
    dsc: u32,
    guid: FGuid,
    rolling_hash: u64,
    flag: u8,
    p7: int,
) -> Result<(ChunkHeaderModel, int), ParseError> {
    let base = ChunkHeaderModel {
        magic,
        version,
        header_size,
        data_size_compressed: dsc,
        guid,
        rolling_hash,
        stored_as: flag,
        hash_type: None,
        data_size_uncompressed: None,
        sha_hash: None,
    };
    if version >= 2 {
        match sp_bytes(b, p7, 20) {
            Ok((sha, p8)) => match sp_u8(b, p8) {
                Ok((ht, p9)) => {
                    if ht > 3 {
                        Err(ParseError::InvalidData)
                    } else if version >= 3 {
                        match sp_u32(b, p9) {
                            Ok((dsu, p10)) => {
                                if p10 - pos == header_size {
                                    Ok(
                                        (
                                            ChunkHeaderModel {
                                                sha_hash: Some(sha),
                                                hash_type: Some(ht),
                                                data_size_uncompressed: Some(dsu),
                                                ..base
                                            },
                                            p10,
                                        ),
                                    )
                                } else {
                                    Err(ParseError::SizeMismatch)
                                }
                            },
                            Err(e) => Err(e),
                        }
                    } else {
                        if p9 - pos == header_size {
                            Ok(
                                (
                                    ChunkHeaderModel {
                                        sha_hash: Some(sha),
                                        hash_type: Some(ht),
                                        ..base
                                    },
                                    p9,
                                ),
                            )
                        } else {
                            Err(ParseError::SizeMismatch)
                        }
                    }
                },
                Err(e) => Err(e),
            },
            Err(e) => Err(e),
        }
    } else {
        if p7 - pos == header_size {
            Ok((base, p7))
        } else {
            Err(ParseError::SizeMismatch)
        }
    }
}

/// The header of an on-disk chunk payload file.
#[derive(Debug, Clone)]
pub struct FChunkHeader {
    pub magic: u32,
    pub version: EChunkVersion,
    pub header_size: u32,
    pub data_size_compressed: u32,
    pub guid: FGuid,
    pub rolling_hash: u64,
    pub stored_as: EChunkStorageFlags,
    pub hash_type: Option<EChunkHashFlags>,
    pub data_size_uncompressed: Option<u32>,
    pub sha_hash: Option<FSHAHash>,
}

impl View for FChunkHeader {
    type V = ChunkHeaderModel;

    open spec fn view(&self) -> ChunkHeaderModel {
        ChunkHeaderModel {
            magic: self.magic,
            version: self.version.spec_to_i32(),
            header_size: self.header_size,
            data_size_compressed: self.data_size_compressed,
            guid: self.guid,
            rolling_hash: self.rolling_hash,
            stored_as: self.stored_as.spec_as_u8(),
            hash_type: match self.hash_type {
                Some(h) => Some(h.spec_as_u8()),
                None => None,
            },
            data_size_uncompressed: self.data_size_uncompressed,
            sha_hash: match self.sha_hash {
                Some(h) => Some(h@),
                None => None,
            },
        }
    }
}

impl FChunkHeader {
    /// Parses a chunk file header.
    pub fn parse(reader: &mut ByteReader) -> (r: ParseResult<FChunkHeader>)
        requires
            old(reader).wf(),
        ensures
            final(reader).wf(),
            final(reader)@.data == old(reader)@.data,
            match sp_chunk_header(old(reader)@.data, old(reader)@.pos) {
                Ok((m, p)) => r matches Ok(h) && h@ == m && final(reader)@.pos == p,
                Err(e) => r matches Err(e2) && e2 == e,
            },
    {
        let start = reader.tell();
        let magic = match reader.read_u32() {
            Ok(v) => v,
            Err(e) => {
                return Err(e);
            },
        };
        if magic != CHUNK_MAGIC {
            return Err(ParseError::InvalidMagic);
        }
        let ver_raw = match reader.read_i32() {
            Ok(v) => v,
            Err(e) => {
                return Err(e);
            },
        };
        let version = EChunkVersion::from_i32(ver_raw);
        let header_size = match reader.read_u32() {
            Ok(v) => v,
            Err(e) => {
                return Err(e);
            },
        };
        let data_size_compressed = match reader.read_u32() {
            Ok(v) => v,
            Err(e) => {
                return Err(e);
            },
        };
        let guid = match FGuid::read(reader) {
            Ok(v) => v,
            Err(e) => {
                return Err(e);
            },
        };
        let rolling_hash = match reader.read_u64() {
            Ok(v) => v,
            Err(e) => {
                return Err(e);
            },
        };
        let flag_raw = match reader.read_u8() {
            Ok(v) => v,
            Err(e) => {
                return Err(e);
            },
        };
        if flag_raw > 2 {
            return Err(ParseError::InvalidStorageFlag);
        }
        let stored_as = match EChunkStorageFlags::from_u8(flag_raw) {
            Some(f) => f,
            None => {
                return Err(ParseError::InvalidStorageFlag);
            },
        };
        let mut sha_hash: Option<FSHAHash> = None;
        let mut hash_type: Option<EChunkHashFlags> = None;
        let mut data_size_uncompressed: Option<u32> = None;
        if version.to_i32() >= 2 {
            sha_hash = match FSHAHash::read(reader) {
                Ok(v) => Some(v),
                Err(e) => {
                    return Err(e);
                },
            };
            let ht_raw = match reader.read_u8() {
                Ok(v) => v,
                Err(e) => {
                    return Err(e);
                },
            };
            if ht_raw > 3 {
                return Err(ParseError::InvalidData);
            }
            hash_type = match EChunkHashFlags::from_u8(ht_raw) {
                Some(h) => Some(h),
                None => {
                    return Err(ParseError::InvalidData);
                },
            };
        }
        if version.to_i32() >= 3 {
            data_size_uncompressed = match reader.read_u32() {
                Ok(v) => Some(v),
                Err(e) => {
                    return Err(e);
                },
            };
        }
        let end = reader.tell();
        if end < start {
            return Err(ParseError::SizeMismatch);
        }
        if end - start != header_size as usize {
            return Err(ParseError::SizeMismatch);
        }
        Ok(FChunkHeader {
            magic,
            version,
            header_size,
            data_size_compressed,
            guid,
            rolling_hash,
            stored_as,
            hash_type,
            data_size_uncompressed,
            sha_hash,
        })
    }

    /// The magic value.
    pub fn magic(&self) -> (r: u32)
        ensures
            r == self@.magic,
    {
        self.magic
    }

    /// The header's version.
    pub fn version(&self) -> (r: EChunkVersion)
        ensures
            r.spec_to_i32() == self@.version,
    {
        self.version
    }

    /// The declared header size.
    pub fn header_size(&self) -> (r: u32)
        ensures
            r == self@.header_size,
    {
        self.header_size
    }

    /// The stored payload size.
    pub fn data_size_compressed(&self) -> (r: u32)
        ensures
            r == self@.data_size_compressed,
    {
        self.data_size_compressed
    }

    /// The chunk's GUID.
    pub fn guid(&self) -> (r: FGuid)
        ensures
            r == self@.guid,
    {
        self.guid
    }

    /// The 64-bit rolling hash.
    pub fn rolling_hash(&self) -> (r: u64)
        ensures
            r == self@.rolling_hash,
    {
        self.rolling_hash
    }

    /// How the payload is stored.
    pub fn stored_as(&self) -> (r: EChunkStorageFlags)
        ensures
            r.spec_as_u8() == self@.stored_as,
    {
        self.stored_as
    }

    /// Which hashes the header stores, when the version stores the field.
    pub fn hash_type(&self) -> (r: Option<EChunkHashFlags>)
        ensures
            match r {
                Some(h) => self@.hash_type == Some(h.spec_as_u8()),
                None => self@.hash_type is None,
            },
    {
        self.hash_type
    }

    /// The plain payload size, when the version stores it.
    pub fn data_size_uncompressed(&self) -> (r: Option<u32>)
        ensures
            r == self@.data_size_uncompressed,
    {
        self.data_size_uncompressed
    }

    /// The SHA-1 of the chunk data, when the version stores it.
    pub fn sha_hash(&self) -> (r: Option<FSHAHash>)
        ensures
            match r {
                Some(h) => self@.sha_hash == Some(h@),
                None => self@.sha_hash is None,
            },
    {
        self.sha_hash
    }

    /// Whether the payload is stored compressed.
    pub fn is_compressed(&self) -> (r: bool)
        ensures
            r == (self@.stored_as == 1),
    {
        match self.stored_as {
            EChunkStorageFlags::Compressed => true,
            _ => false,
        }
    }

    /// Reads the chunk payload that follows the header: the remaining bytes
    /// as they stand, or their zlib inflation when the header says
    /// compressed.  Encrypted payloads are not supported here.
    pub fn get_data(&self, reader: &mut ByteReader) -> (r: ParseResult<Vec<u8>>)
        requires
            old(reader).wf(),
            self@.stored_as != 2,
        ensures
            final(reader).wf(),
            final(reader)@.data == old(reader)@.data,
            ({
                let raw = old(reader)@.data.subrange(
                    old(reader)@.pos,
                    old(reader)@.data.len() as int,
                );
                if self@.stored_as == 1 {
                    match inflate_of(raw) {
                        Some(buf) => r matches Ok(v) && v@ == buf,
                        None => r matches Err(e) && e == ParseError::DecompressionError,
                    }
                } else {
                    r matches Ok(v) && v@ == raw
                }
            }),
    {
        let raw = reader.read_remaining();
        if self.is_compressed() {
            match zlib_inflate(raw.as_slice()) {
                Some(buf) => Ok(buf),
                None => Err(ParseError::DecompressionError),
            }
        } else {
            Ok(raw)
        }
    }
}

} // verus!
