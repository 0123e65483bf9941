//! The manifest envelope: magic, header fields, optional zlib compression
//! and a SHA-1 over the uncompressed payload.
use vstd::prelude::*;

use crate::manifest::FManifestParser;
use crate::reader::ByteReader;
use crate::shared::{is_wire_level, EFeatureLevel, EManifestStorageFlags, FSHAHash};
use crate::trusted::{inflate_of, sha1_of, zlib_inflate};
use crate::wire::{
    enc_i32, enc_u32, enc_u8, has_at, lemma_has_at_split, lemma_sp_u32_of_enc, lemma_sp_u8_of_enc,
    sp_bytes, sp_i32, sp_u32, sp_u8,
};
use crate::writer::ByteWriter;
use crate::{ParseError, ParseResult};

verus! {

/// The magic value that opens every manifest.
pub const MANIFEST_MAGIC: u32 = 0x44BEC00C;

/// The number of bytes the envelope header occupies.
pub const MANIFEST_HEADER_SIZE: u32 = 41;

/// Ghost image of the envelope header.  The storage flag and the feature
/// level are their numeric wire values.
#[verifier::ext_equal]
pub ghost struct HeaderModel {
    pub magic: u32,
    pub header_size: u32,
    pub data_size_uncompressed: u32,
    pub data_size_compressed: u32,
    pub sha_hash: Seq<u8>,
    pub stored_as: u8,
    pub version: i32,
}

/// The 41 bytes of the envelope header.
pub open spec fn enc_header(h: HeaderModel) -> Seq<u8> {
    enc_u32(h.magic) + enc_u32(h.header_size) + enc_u32(h.data_size_uncompressed) + enc_u32(
        h.data_size_compressed,
    ) + h.sha_hash + enc_u8(h.stored_as) + enc_i32(h.version)
}

/// Reading the envelope: header fields, then the payload, inflated when the
/// storage flag says so, and checked against the stored SHA-1.  The result
/// is the header and the plain payload bytes.
pub open spec fn sp_envelope(b: Seq<u8>) -> Result<(HeaderModel, Seq<u8>), ParseError> {
    match sp_u32(b, 0) {
        Ok((magic, _)) => {
            if magic != MANIFEST_MAGIC {
                Err(ParseError::InvalidMagic)
            } else {
                match sp_u32(b, 4) {
                    Ok((header_size, _)) => match sp_u32(b, 8) {
                        Ok((dsu, _)) => match sp_u32(b, 12) {
                            Ok((dsc, _)) => match sp_bytes(b, 16, 20) {
                                Ok((sha, _)) => match sp_u8(b, 36) {
                                    Ok((flag, _)) => {
                                        if flag >= 2 {
                                            Err(ParseError::InvalidStorageFlag)
                                        } else {
                                            match sp_i32(b, 37) {
                                                Ok((ver, _)) => {
                                                    if !is_wire_level(ver) {
                                                        Err(ParseError::InvalidData)
                                                    } else if header_size != 41 {
                                                        Err(ParseError::OffsetMismatch)
                                                    } else {
                                                        sp_envelope_payload(
                                                            HeaderModel {
                                                                magic,
                                                                header_size,
                                                                data_size_uncompressed: dsu,
                                                                data_size_compressed: dsc,
                                                                sha_hash: sha,
                                                                stored_as: flag,
                                                                version: ver,
                                                            },
                                                            b.subrange(41, b.len() as int),
                                                        )
                                                    }
                                                },
                                                Err(e) => Err(e),
                                            }
                                        }
                                    },
                                    Err(e) => Err(e),
                                },
                                Err(e) => Err(e),
                            },
                            Err(e) => Err(e),
                        },
                        Err(e) => Err(e),
                    },
                    Err(e) => Err(e),
                }
            }
        },
        Err(e) => Err(e),
    }
}

/// The payload step of the envelope read: inflate when compressed, then
/// check the SHA-1 over the plain bytes.
pub open spec fn sp_envelope_payload(h: HeaderModel, raw: Seq<u8>) -> Result<
    (HeaderModel, Seq<u8>),
    ParseError,
> {
    if h.stored_as == 1 {
        match inflate_of(raw) {
            Some(buf) => {
                if buf.len() != h.data_size_uncompressed {
                    Err(ParseError::DecompressionError)
                } else if sha1_of(buf) != h.sha_hash {
                    Err(ParseError::HashMismatch)
                } else {
                    Ok((h, buf))
                }
            },
            None => Err(ParseError::DecompressionError),
        }
    } else {
        if sha1_of(raw) != h.sha_hash {
            Err(ParseError::HashMismatch)
        } else {
            Ok((h, raw))
        }
    }
}

/// The envelope header of a manifest.
#[derive(Debug, Clone)]
pub struct FManifestHeader {
    pub magic: u32,
    pub header_size: u32,
    pub data_size_uncompressed: u32,
    pub data_size_compressed: u32,
    pub sha_hash: FSHAHash,
    pub stored_as: EManifestStorageFlags,
    pub version: EFeatureLevel,
}

impl View for FManifestHeader {
    type V = HeaderModel;

    open spec fn view(&self) -> HeaderModel {
        HeaderModel {
            magic: self.magic,
            header_size: self.header_size,
            data_size_uncompressed: self.data_size_uncompressed,
            data_size_compressed: self.data_size_compressed,
            sha_hash: self.sha_hash@,
            stored_as: self.stored_as.spec_as_u8(),
            version: self.version.spec_to_i32(),
        }
    }
}

impl FManifestHeader {
    /// Builds a header from its fields.
    pub fn new(
        magic: u32,
        header_size: u32,
        data_size_uncompressed: u32,
        data_size_compressed: u32,
        sha_hash: FSHAHash,
        stored_as: EManifestStorageFlags,
        version: EFeatureLevel,
    ) -> (r: FManifestHeader)
        ensures
            r@ == (HeaderModel {
                magic,
                header_size,
                data_size_uncompressed,
                data_size_compressed,
                sha_hash: sha_hash@,
                stored_as: stored_as.spec_as_u8(),
                version: version.spec_to_i32(),
            }),
    {
        FManifestHeader {
            magic,
            header_size,
            data_size_uncompressed,
            data_size_compressed,
            sha_hash,
            stored_as,
            version,
        }
    }

    /// Parses the envelope: the header fields, then the payload, inflating
    /// and hash-checking it.  Returns the header and a reader over the
    /// plain payload.
    pub fn parse(manifest: &mut FManifestParser) -> (r: ParseResult<(FManifestHeader, ByteReader)>)
        requires
            old(manifest).wf(),
        ensures
            final(manifest).data@ == old(manifest).data@,
            match sp_envelope(old(manifest).data@) {
                Ok((hm, payload)) => r matches Ok(pair) && pair.0@ == hm && pair.1@.data == payload
                    && pair.1@.pos == 0 && pair.1.wf(),
                Err(e) => r matches Err(e2) && e2 == e,
            },
    {
        let ghost b = manifest.data@;
        manifest.reader.seek(0);
        let magic = match manifest.reader.read_u32() {
            Ok(v) => v,
            Err(e) => {
                return Err(e);
            },
        };
        if magic != MANIFEST_MAGIC {
            return Err(ParseError::InvalidMagic);
        }
        let header_size = match manifest.reader.read_u32() {
            Ok(v) => v,
            Err(e) => {
                return Err(e);
            },
        };
        let data_size_uncompressed = match manifest.reader.read_u32() {
            Ok(v) => v,
            Err(e) => {
                return Err(e);
            },
        };
        let data_size_compressed = match manifest.reader.read_u32() {
            Ok(v) => v,
            Err(e) => {
                return Err(e);
            },
        };
        let header_hash = match FSHAHash::read(&mut manifest.reader) {
            Ok(v) => v,
            Err(e) => {
                return Err(e);
            },
        };
        let flag_raw = match manifest.reader.read_u8() {
            Ok(v) => v,
            Err(e) => {
                return Err(e);
            },
        };
        if flag_raw >= 2 {
            return Err(ParseError::InvalidStorageFlag);
        }
        let stored_as = match EManifestStorageFlags::from_u8(flag_raw) {
            Some(f) => f,
            None => {
                return Err(ParseError::InvalidStorageFlag);
            },
        };
        let ver_raw = match manifest.reader.read_i32() {
            Ok(v) => v,
            Err(e) => {
                return Err(e);
            },
        };
        if !(ver_raw == -1i32 || (0i32 <= ver_raw && ver_raw <= 18i32) || ver_raw == 255i32) {
            return Err(ParseError::InvalidData);
        }
        let version = match EFeatureLevel::from_i32(ver_raw) {
            Some(lv) => lv,
            None => {
                proof {
                    crate::shared::lemma_wire_level_round_trip(ver_raw);
                }
                return Err(ParseError::InvalidData);
            },
        };
        proof {
            crate::shared::lemma_wire_level_round_trip(ver_raw);
        }
        if header_size != 41 {
            return Err(ParseError::OffsetMismatch);
        }
        let data = manifest.reader.read_remaining();
        let proper_data: Vec<u8> = if flag_raw == 1 {
            let buf = match zlib_inflate(data.as_slice()) {
                Some(v) => v,
                None => {
                    return Err(ParseError::DecompressionError);
                },
            };
            if buf.len() as u64 != data_size_uncompressed as u64 {
                return Err(ParseError::DecompressionError);
            }
            let in_hash = FSHAHash::new_from_hashable(buf.as_slice());
            if !(in_hash == header_hash) {
                return Err(ParseError::HashMismatch);
            }
            buf
        } else {
            let in_hash = FSHAHash::new_from_hashable(data.as_slice());
            if !(in_hash == header_hash) {
                return Err(ParseError::HashMismatch);
            }
            data
        };
        let header = FManifestHeader {
            magic,
            header_size,
            data_size_uncompressed,
            data_size_compressed,
            sha_hash: header_hash,
            stored_as,
            version,
        };
        Ok((header, ByteReader::new(proper_data)))
    }

    /// Writes the header with a recomputed header size, then the payload
    /// bytes as given (already compressed when the flag says so).
    pub fn write_with_data(&self, writer: &mut ByteWriter, manifest_data: &[u8])
        ensures
            final(writer)@ == old(writer)@ + enc_header(
                HeaderModel { header_size: 41, ..self@ },
            ) + manifest_data@,
    {
        writer.write_u32(self.magic);
        writer.write_u32(MANIFEST_HEADER_SIZE);
        writer.write_u32(self.data_size_uncompressed);
        writer.write_u32(self.data_size_compressed);
        self.sha_hash.write(writer);
        writer.write_u8(self.stored_as.as_u8());
        writer.write_i32(self.version.to_i32());
        writer.write_bytes(manifest_data);
        proof {
            assert(writer@ =~= old(writer)@ + enc_header(HeaderModel { header_size: 41, ..self@ })
                + manifest_data@);
        }
    }

    /// The feature level of the build.
    pub fn version(&self) -> (r: EFeatureLevel)
        ensures
            r.spec_to_i32() == self@.version,
    {
        self.version
    }

    /// The size of the plain payload.
    pub fn data_size_uncompressed(&self) -> (r: u32)
        ensures
            r == self@.data_size_uncompressed,
    {
        self.data_size_uncompressed
    }

    /// The size of the stored payload.
    pub fn data_size_compressed(&self) -> (r: u32)
        ensures
            r == self@.data_size_compressed,
    {
        self.data_size_compressed
    }

    /// The SHA-1 over the plain payload.
    pub fn sha_hash(&self) -> (r: &FSHAHash)
        ensures
            r@ == self@.sha_hash,
    {
        &self.sha_hash
    }

    /// How the payload is stored.
    pub fn stored_as(&self) -> (r: EManifestStorageFlags)
        ensures
            r.spec_as_u8() == self@.stored_as,
    {
        self.stored_as
    }

    /// The magic value.
    pub fn magic(&self) -> (r: u32)
        ensures
            r == self@.magic,
    {
        self.magic
    }

    /// The declared header size.
    pub fn header_size(&self) -> (r: u32)
        ensures
            r == self@.header_size,
    {
        self.header_size
    }
}

/// A well-formed envelope reads back its header and plain payload.
#[verifier::rlimit(100)]
#[verifier::spinoff_prover]
pub proof fn lemma_sp_envelope_of_enc(b: Seq<u8>, h: HeaderModel, stored: Seq<u8>, raw: Seq<u8>)
    requires
        h.magic == MANIFEST_MAGIC,
        h.header_size == 41,
        h.stored_as < 2,
        is_wire_level(h.version),
        h.sha_hash == sha1_of(raw),
        h.sha_hash.len() == 20,
        h.data_size_uncompressed == raw.len(),
        h.stored_as == 1 ==> inflate_of(stored) == Some(raw),
        h.stored_as != 1 ==> stored == raw,
        b == enc_header(h) + stored,
    ensures
        sp_envelope(b) == Ok::<(HeaderModel, Seq<u8>), ParseError>((h, raw)),
{
    vstd::bytes::lemma_auto_spec_u32_to_from_le_bytes();
    let e1 = enc_u32(h.magic);
    let e2 = enc_u32(h.header_size);
    let e3 = enc_u32(h.data_size_uncompressed);
    let e4 = enc_u32(h.data_size_compressed);
    let e5 = h.sha_hash;
    let e6 = enc_u8(h.stored_as);
    let e7 = enc_i32(h.version);
    let t1 = e1;
    let t2 = t1 + e2;
    let t3 = t2 + e3;
    let t4 = t3 + e4;
    let t5 = t4 + e5;
    let t6 = t5 + e6;
    let hd = enc_header(h);
    assert(hd == t6 + e7);
    assert(has_at(b, 0, hd)) by {
        assert(b.subrange(0, hd.len() as int) =~= hd);
    }
    lemma_has_at_split(b, 0, t6, e7);
    lemma_has_at_split(b, 0, t5, e6);
    lemma_has_at_split(b, 0, t4, e5);
    lemma_has_at_split(b, 0, t3, e4);
    lemma_has_at_split(b, 0, t2, e3);
    lemma_has_at_split(b, 0, t1, e2);
    lemma_sp_u32_of_enc(b, 0, h.magic);
    lemma_sp_u32_of_enc(b, 4, h.header_size);
    lemma_sp_u32_of_enc(b, 8, h.data_size_uncompressed);
    lemma_sp_u32_of_enc(b, 12, h.data_size_compressed);
    crate::wire::lemma_sp_bytes_of_enc(b, 16, h.sha_hash);
    lemma_sp_u8_of_enc(b, 36, h.stored_as);
    crate::wire::lemma_sp_i32_of_enc(b, 37, h.version);
    assert(b.subrange(41, b.len() as int) =~= stored);
}

} // verus!
