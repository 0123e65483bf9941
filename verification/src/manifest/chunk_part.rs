//! A chunk part: a slice of a chunk contributing bytes at a computed offset
//! within a file.  Self-framing on the wire: its own size field counts
//! itself.
use vstd::prelude::*;

use crate::reader::ByteReader;
use crate::shared::{enc_guid, sp_guid, FGuid};
use crate::wire::{enc_u32, has_at, lemma_has_at_split, lemma_sp_u32_of_enc, sp_u32};
use crate::writer::ByteWriter;
use crate::{ParseError, ParseResult};

verus! {

/// The number of bytes a chunk part record occupies, its size field
/// included.
pub const CHUNK_PART_WIRE_SIZE: u32 = 28;

/// Ghost image of a chunk part.  `file_offset` is derived, not stored: the
/// sum of the sizes of the parts before this one in its file.
#[verifier::ext_equal]
pub ghost struct ChunkPartModel {
    pub guid: FGuid,
    pub offset: u32,
    pub size: u32,
    pub file_offset: int,
}

/// The bytes of a chunk part record: its own size field (28, counting
/// itself), the chunk GUID, the offset within the chunk, the byte count.
pub open spec fn enc_chunk_part(p: ChunkPartModel) -> Seq<u8> {
    enc_u32(CHUNK_PART_WIRE_SIZE) + enc_guid(p.guid) + enc_u32(p.offset) + enc_u32(p.size)
}

/// Reading a chunk part; the declared struct size must equal the bytes
/// consumed.  The derived file offset of the result is 0 until the
/// enclosing file computes it.
pub open spec fn sp_chunk_part(b: Seq<u8>, pos: int) -> Result<(ChunkPartModel, int), ParseError> {
    match sp_u32(b, pos) {
        Ok((struct_size, p1)) => match sp_guid(b, p1) {
            Ok((guid, p2)) => match sp_u32(b, p2) {
                Ok((offset, p3)) => match sp_u32(b, p3) {
                    Ok((size, p4)) => if pos + struct_size == p4 {
                        Ok((ChunkPartModel { guid, offset, size, file_offset: 0 }, p4))
                    } else {
                        Err(ParseError::SizeMismatch)
                    },
                    Err(e) => Err(e),
                },
                Err(e) => Err(e),
            },
            Err(e) => Err(e),
        },
        Err(e) => Err(e),
    }
}

/// The chunk part reader and encoder as named closures.
pub open spec fn part_reader() -> spec_fn(Seq<u8>, int) -> Result<(ChunkPartModel, int), ParseError> {
    |b: Seq<u8>, pos: int| sp_chunk_part(b, pos)
}

pub open spec fn part_encoder() -> spec_fn(ChunkPartModel) -> Seq<u8> {
    |p: ChunkPartModel| enc_chunk_part(p)
}

/// A slice of a chunk (`offset`, `size`) carrying its derived offset within
/// the enclosing file.
#[derive(Debug, Clone)]
pub struct FChunkPart {
    pub size: u32,
    pub guid: FGuid,
    pub offset: u32,
    pub file_offset: usize,
}

impl View for FChunkPart {
    type V = ChunkPartModel;

    open spec fn view(&self) -> ChunkPartModel {
        ChunkPartModel {
            guid: self.guid,
            offset: self.offset,
            size: self.size,
            file_offset: self.file_offset as int,
        }
    }
}

impl DeepView for FChunkPart {
    type V = ChunkPartModel;

    open spec fn deep_view(&self) -> ChunkPartModel {
        self@
    }
}

impl FChunkPart {
    /// Builds a chunk part from its fields.
    pub fn new(guid: FGuid, offset: u32, size: u32, file_offset: usize) -> (r: FChunkPart)
        ensures
            r@ == (ChunkPartModel {
                guid,
                offset,
                size,
                file_offset: file_offset as int,
            }),
    {
        FChunkPart { size, guid, offset, file_offset }
    }

    /// Parses a chunk part record; `file_offset` is the derived offset the
    /// caller computed for it.
    pub fn parse(reader: &mut ByteReader, file_offset: usize) -> (r: ParseResult<FChunkPart>)
        requires
            old(reader).wf(),
        ensures
            final(reader).wf(),
            final(reader)@.data == old(reader)@.data,
            match sp_chunk_part(old(reader)@.data, old(reader)@.pos) {
                Ok((m, p)) => r matches Ok(part) && part@ == (ChunkPartModel {
                    file_offset: file_offset as int,
                    ..m
                }) && final(reader)@.pos == p,
                Err(e) => r matches Err(e2) && e2 == e,
            },
    {
        let start = reader.tell();
        let struct_size = match reader.read_u32() {
            Ok(v) => v,
            Err(e) => {
                return Err(e);
            },
        };
        let guid = match FGuid::read(reader) {
            Ok(v) => v,
            Err(e) => {
                return Err(e);
            },
        };
        let offset = match reader.read_u32() {
            Ok(v) => v,
            Err(e) => {
                return Err(e);
            },
        };
        let size = match reader.read_u32() {
            Ok(v) => v,
            Err(e) => {
                return Err(e);
            },
        };
        let consumed = reader.tell() - start;
        if consumed != struct_size as usize {
            return Err(ParseError::SizeMismatch);
        }
        Ok(FChunkPart { size, guid, offset, file_offset })
    }

    /// Writes the record: size field, GUID, offset, size.
    pub fn write(&self, writer: &mut ByteWriter)
        ensures
            final(writer)@ == old(writer)@ + enc_chunk_part(self@),
    {
        writer.write_u32(CHUNK_PART_WIRE_SIZE);
        self.guid.write(writer);
        writer.write_u32(self.offset);
        writer.write_u32(self.size);
        proof {
            assert(writer@ =~= old(writer)@ + enc_chunk_part(self@));
        }
    }

    /// The derived offset of this part's bytes within its file.
    pub fn file_offset(&self) -> (r: usize)
        ensures
            r as int == self@.file_offset,
    {
        self.file_offset
    }

    /// The number of bytes this part contributes.
    pub fn size(&self) -> (r: u32)
        ensures
            r == self@.size,
    {
        self.size
    }

    /// The GUID of the chunk the bytes come from.
    pub fn guid(&self) -> (r: &FGuid)
        ensures
            *r == self@.guid,
    {
        &self.guid
    }

    /// The offset within the chunk where this part's bytes start.
    pub fn offset(&self) -> (r: u32)
        ensures
            r == self@.offset,
    {
        self.offset
    }
}

/// A chunk part's encoding reads back as itself, with the derived file
/// offset reset.
pub proof fn lemma_sp_chunk_part_of_enc(b: Seq<u8>, pos: int, m: ChunkPartModel)
    requires
        has_at(b, pos, enc_chunk_part(m)),
    ensures
        sp_chunk_part(b, pos) == Ok::<(ChunkPartModel, int), ParseError>((
            ChunkPartModel { file_offset: 0, ..m },
            pos + 28,
        )),
{
    vstd::bytes::lemma_auto_spec_u32_to_from_le_bytes();
    let e = enc_chunk_part(m);
    let rest1 = enc_guid(m.guid) + enc_u32(m.offset) + enc_u32(m.size);
    assert(e =~= enc_u32(CHUNK_PART_WIRE_SIZE) + rest1);
    lemma_has_at_split(b, pos, enc_u32(CHUNK_PART_WIRE_SIZE), rest1);
    lemma_sp_u32_of_enc(b, pos, CHUNK_PART_WIRE_SIZE);
    let rest2 = enc_u32(m.offset) + enc_u32(m.size);
    assert(rest1 =~= enc_guid(m.guid) + rest2);
    lemma_has_at_split(b, pos + 4, enc_guid(m.guid), rest2);
    crate::shared::lemma_sp_guid_of_enc(b, pos + 4, m.guid);
    lemma_has_at_split(b, pos + 20, enc_u32(m.offset), enc_u32(m.size));
    lemma_sp_u32_of_enc(b, pos + 20, m.offset);
    lemma_sp_u32_of_enc(b, pos + 24, m.size);
}

impl crate::writer::ByteWritable for FChunkPart {
    open spec fn wire_bytes(&self) -> Seq<u8> {
        enc_chunk_part(self@)
    }

    fn write(&self, writer: &mut ByteWriter) {
        FChunkPart::write(self, writer);
    }
}

} // verus!
