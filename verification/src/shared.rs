//! Shared wire types: GUIDs, fixed-width hashes, and the enums the format
//! stores as integers.
use vstd::prelude::*;

use crate::reader::ByteReader;
use crate::wire::{enc_u32, enc_u8, has_at, sp_bytes};
use crate::writer::ByteWriter;
use crate::{ParseError, ParseResult};

verus! {

pub const SHA1_DIGEST_SIZE: usize = 20;

pub const MD5_DIGEST_SIZE: usize = 16;

pub const SHA256_DIGEST_SIZE: usize = 32;

/// A 128-bit GUID held as four 32-bit limbs, as the engine stores it.
#[derive(Clone, Copy, PartialEq, Eq, Structural, Hash, Debug, Default)]
pub struct FGuid {
    /// Holds the first component.
    pub a: u32,
    /// Holds the second component.
    pub b: u32,
    /// Holds the third component.
    pub c: u32,
    /// Holds the fourth component.
    pub d: u32,
}

/// The 16 bytes a GUID occupies on the wire: four little-endian `u32` limbs
/// in order a, b, c, d.
pub open spec fn enc_guid(g: FGuid) -> Seq<u8> {
    enc_u32(g.a) + enc_u32(g.b) + enc_u32(g.c) + enc_u32(g.d)
}

/// Reading a GUID: four little-endian `u32` limbs.
pub open spec fn sp_guid(b: Seq<u8>, pos: int) -> Result<(FGuid, int), ParseError> {
    match sp_bytes(b, pos, 16) {
        Ok((bs, p)) => Ok((
            FGuid {
                a: crate::wire::spec_u32_at(bs, 0),
                b: crate::wire::spec_u32_at(bs, 4),
                c: crate::wire::spec_u32_at(bs, 8),
                d: crate::wire::spec_u32_at(bs, 12),
            },
            p,
        )),
        Err(e) => Err(e),
    }
}

impl FGuid {
    /// Reads a GUID from the reader.
    pub fn read(reader: &mut ByteReader) -> (r: ParseResult<FGuid>)
        requires
            old(reader).wf(),
        ensures
            final(reader).wf(),
            final(reader)@.data == old(reader)@.data,
            match sp_guid(old(reader)@.data, old(reader)@.pos) {
                Ok((g, p)) => r matches Ok(rg) && rg == g && final(reader)@.pos == p,
                Err(e) => r matches Err(e2) && e2 == e && final(reader)@.pos == old(reader)@.pos,
            },
    {
        let ghost b = reader@.data;
        let ghost pos0 = reader@.pos;
        let bs = match reader.read_bytes(16) {
            Ok(bs) => bs,
            Err(e) => {
                return Err(e);
            },
        };
        let a = vstd::bytes::u32_from_le_bytes(vstd::slice::slice_subrange(bs.as_slice(), 0, 4));
        let bb = vstd::bytes::u32_from_le_bytes(vstd::slice::slice_subrange(bs.as_slice(), 4, 8));
        let c = vstd::bytes::u32_from_le_bytes(vstd::slice::slice_subrange(bs.as_slice(), 8, 12));
        let d = vstd::bytes::u32_from_le_bytes(vstd::slice::slice_subrange(bs.as_slice(), 12, 16));
        Ok(FGuid { a, b: bb, c, d })
    }

    /// Writes the GUID's four limbs, little-endian.
    pub fn write(&self, w: &mut ByteWriter)
        ensures
            final(w)@ == old(w)@ + enc_guid(*self),
    {
        w.write_u32(self.a);
        w.write_u32(self.b);
        w.write_u32(self.c);
        w.write_u32(self.d);
        proof {
            assert(w@ =~= old(w)@ + enc_guid(*self));
        }
    }
}

/// A GUID's encoding reads back as itself.
pub proof fn lemma_sp_guid_of_enc(b: Seq<u8>, pos: int, g: FGuid)
    requires
        has_at(b, pos, enc_guid(g)),
    ensures
        sp_guid(b, pos) == Ok::<(FGuid, int), ParseError>((g, pos + 16)),
{
    vstd::bytes::lemma_auto_spec_u32_to_from_le_bytes();
    let e = enc_guid(g);
    assert(e.len() == 16);
    crate::wire::lemma_sp_bytes_of_enc(b, pos, e);
    assert(e.subrange(0, 4) =~= enc_u32(g.a));
    assert(e.subrange(4, 8) =~= enc_u32(g.b));
    assert(e.subrange(8, 12) =~= enc_u32(g.c));
    assert(e.subrange(12, 16) =~= enc_u32(g.d));
}

/// Copies a byte vector of known length into a fixed-size array.
pub fn vec_to_array<const N: usize>(v: &Vec<u8>) -> (r: [u8; N])
    requires
        v@.len() == N,
    ensures
        r@ == v@,
{
    let mut a: [u8; N] = vstd::array::array_fill_for_copy_types::<u8, N>(0u8);
    let mut i: usize = 0;
    while i < N
        invariant
            i <= N,
            a@.len() == N,
            v@.len() == N,
            forall|j: int| 0 <= j < i ==> a@[j] == v@[j],
        decreases N - i,
    {
        a[i] = v[i];
        i = i + 1;
    }
    proof {
        assert(a@ =~= v@);
    }
    a
}

/// A 20-byte SHA-1 digest as the engine stores it.
#[derive(Clone, Copy, Debug)]
pub struct FSHAHash {
    pub data: [u8; SHA1_DIGEST_SIZE],
}

impl View for FSHAHash {
    type V = Seq<u8>;

    open spec fn view(&self) -> Seq<u8> {
        self.data@
    }
}

/// A SHA-1 hash value always views as exactly 20 bytes.
pub broadcast proof fn lemma_fsha_len(h: &FSHAHash)
    ensures
        (#[trigger] h@).len() == SHA1_DIGEST_SIZE,
{
}

impl PartialEq for FSHAHash {
    /// Two hashes are equal exactly when their bytes are.
    fn eq(&self, other: &Self) -> (r: bool) {
        let mut i: usize = 0;
        let mut same = true;
        while i < SHA1_DIGEST_SIZE
            invariant
                i <= SHA1_DIGEST_SIZE,
                self@.len() == SHA1_DIGEST_SIZE,
                other@.len() == SHA1_DIGEST_SIZE,
                same <==> (forall|j: int| 0 <= j < i ==> self@[j] == other@[j]),
            decreases SHA1_DIGEST_SIZE - i,
        {
            if self.data[i] != other.data[i] {
                same = false;
            }
            i = i + 1;
        }
        proof {
            if same {
                assert(self@ =~= other@);
            }
        }
        same
    }
}

impl vstd::std_specs::cmp::PartialEqSpecImpl for FSHAHash {
    open spec fn obeys_eq_spec() -> bool {
        true
    }

    open spec fn eq_spec(&self, other: &Self) -> bool {
        self@ == other@
    }
}

impl FSHAHash {
    /// Wraps raw digest bytes.
    pub fn new(data: [u8; SHA1_DIGEST_SIZE]) -> (r: FSHAHash)
        ensures
            r@ == data@,
    {
        FSHAHash { data }
    }

    /// The SHA-1 digest of the given bytes.
    pub fn new_from_hashable(data: &[u8]) -> (r: FSHAHash)
        ensures
            r@ == crate::trusted::sha1_of(data@),
    {
        FSHAHash { data: crate::trusted::sha1_digest(data) }
    }

    /// The raw digest bytes.
    pub fn data(&self) -> (r: [u8; SHA1_DIGEST_SIZE])
        ensures
            r@ == self@,
    {
        self.data
    }

    /// Reads 20 raw digest bytes.
    pub fn read(reader: &mut ByteReader) -> (r: ParseResult<FSHAHash>)
        requires
            old(reader).wf(),
        ensures
            final(reader).wf(),
            final(reader)@.data == old(reader)@.data,
            match sp_bytes(old(reader)@.data, old(reader)@.pos, SHA1_DIGEST_SIZE as int) {
                Ok((bs, p)) => r matches Ok(h) && h@ == bs && final(reader)@.pos == p,
                Err(e) => r matches Err(e2) && e2 == e && final(reader)@.pos == old(reader)@.pos,
            },
    {
        match reader.read_bytes(SHA1_DIGEST_SIZE) {
            Ok(bs) => Ok(FSHAHash { data: vec_to_array::<SHA1_DIGEST_SIZE>(&bs) }),
            Err(e) => Err(e),
        }
    }

    /// Writes the 20 raw digest bytes.
    pub fn write(&self, w: &mut ByteWriter)
        ensures
            final(w)@ == old(w)@ + self@,
    {
        w.write_bytes(self.data.as_slice());
    }
}

/// A fixed-width hash whose length is known at compile time; it stands for
/// both MD5 and SHA-256 digests.
#[derive(Clone, Copy, Debug)]
pub struct UnknownHash<const DIGEST_LENGTH: usize> {
    pub data: [u8; DIGEST_LENGTH],
}

impl<const DIGEST_LENGTH: usize> View for UnknownHash<DIGEST_LENGTH> {
    type V = Seq<u8>;

    open spec fn view(&self) -> Seq<u8> {
        self.data@
    }
}

impl<const DIGEST_LENGTH: usize> DeepView for UnknownHash<DIGEST_LENGTH> {
    type V = Seq<u8>;

    open spec fn deep_view(&self) -> Seq<u8> {
        self@
    }
}

impl<const DIGEST_LENGTH: usize> UnknownHash<DIGEST_LENGTH> {
    /// Wraps raw digest bytes.
    pub fn new(data: [u8; DIGEST_LENGTH]) -> (r: UnknownHash<DIGEST_LENGTH>)
        ensures
            r@ == data@,
    {
        UnknownHash { data }
    }

    /// The raw digest bytes.
    pub fn data(&self) -> (r: [u8; DIGEST_LENGTH])
        ensures
            r@ == self@,
    {
        self.data
    }

    /// Reads the digest's bytes from the reader.
    pub fn from_byte_reader(reader: &mut ByteReader) -> (r: ParseResult<UnknownHash<DIGEST_LENGTH>>)
        requires
            old(reader).wf(),
        ensures
            final(reader).wf(),
            final(reader)@.data == old(reader)@.data,
            match sp_bytes(old(reader)@.data, old(reader)@.pos, DIGEST_LENGTH as int) {
                Ok((bs, p)) => r matches Ok(h) && h@ == bs && final(reader)@.pos == p,
                Err(e) => r matches Err(e2) && e2 == e && final(reader)@.pos == old(reader)@.pos,
            },
    {
        match reader.read_bytes(DIGEST_LENGTH) {
            Ok(bs) => Ok(UnknownHash { data: vec_to_array::<DIGEST_LENGTH>(&bs) }),
            Err(e) => Err(e),
        }
    }

    /// Writes the raw digest bytes.
    pub fn write(&self, w: &mut ByteWriter)
        ensures
            final(w)@ == old(w)@ + self@,
    {
        w.write_bytes(self.data.as_slice());
    }
}

/// How a manifest payload is stored.
#[derive(Debug, PartialEq, Eq, Structural, Copy, Clone)]
pub enum EManifestStorageFlags {
    /// Stored as raw data.
    Plain,
    /// Stored zlib-compressed.
    Compressed,
    /// Encrypted storage; defined by the format but rejected by this codec.
    Encrypted,
}

impl EManifestStorageFlags {
    /// The wire byte of the flag.
    pub open spec fn spec_as_u8(self) -> u8 {
        match self {
            EManifestStorageFlags::Plain => 0,
            EManifestStorageFlags::Compressed => 1,
            EManifestStorageFlags::Encrypted => 2,
        }
    }

    /// The wire byte of the flag.
    #[verifier::when_used_as_spec(spec_as_u8)]
    pub fn as_u8(self) -> (r: u8)
        ensures
            r == self.spec_as_u8(),
    {
        match self {
            EManifestStorageFlags::Plain => 0,
            EManifestStorageFlags::Compressed => 1,
            EManifestStorageFlags::Encrypted => 2,
        }
    }

    /// The flag a wire byte denotes, if any.
    pub open spec fn spec_from_u8(v: u8) -> Option<EManifestStorageFlags> {
        if v == 0 {
            Some(EManifestStorageFlags::Plain)
        } else if v == 1 {
            Some(EManifestStorageFlags::Compressed)
        } else if v == 2 {
            Some(EManifestStorageFlags::Encrypted)
        } else {
            None
        }
    }

    /// The flag a wire byte denotes, if any.
    #[verifier::when_used_as_spec(spec_from_u8)]
    pub fn from_u8(v: u8) -> (r: Option<EManifestStorageFlags>)
        ensures
            r == Self::spec_from_u8(v),
    {
        if v == 0 {
            Some(EManifestStorageFlags::Plain)
        } else if v == 1 {
            Some(EManifestStorageFlags::Compressed)
        } else if v == 2 {
            Some(EManifestStorageFlags::Encrypted)
        } else {
            None
        }
    }
}

/// How a chunk-data payload is stored.
#[derive(Debug, PartialEq, Eq, Structural, Copy, Clone)]
pub enum EChunkStorageFlags {
    /// Stored as raw data.
    Plain,
    /// Stored zlib-compressed.
    Compressed,
    /// Encrypted storage; fatal to chunk payload reads here.
    Encrypted,
}

impl EChunkStorageFlags {
    /// The wire byte of the flag.
    pub open spec fn spec_as_u8(self) -> u8 {
        match self {
            EChunkStorageFlags::Plain => 0,
            EChunkStorageFlags::Compressed => 1,
            EChunkStorageFlags::Encrypted => 2,
        }
    }

    /// The wire byte of the flag.
    #[verifier::when_used_as_spec(spec_as_u8)]
    pub fn as_u8(self) -> (r: u8)
        ensures
            r == self.spec_as_u8(),
    {
        match self {
            EChunkStorageFlags::Plain => 0,
            EChunkStorageFlags::Compressed => 1,
            EChunkStorageFlags::Encrypted => 2,
        }
    }

    /// The flag a wire byte denotes, if any.
    pub open spec fn spec_from_u8(v: u8) -> Option<EChunkStorageFlags> {
        if v == 0 {
            Some(EChunkStorageFlags::Plain)
        } else if v == 1 {
            Some(EChunkStorageFlags::Compressed)
        } else if v == 2 {
            Some(EChunkStorageFlags::Encrypted)
        } else {
            None
        }
    }

    /// The flag a wire byte denotes, if any.
    #[verifier::when_used_as_spec(spec_from_u8)]
    pub fn from_u8(v: u8) -> (r: Option<EChunkStorageFlags>)
        ensures
            r == Self::spec_from_u8(v),
    {
        if v == 0 {
            Some(EChunkStorageFlags::Plain)
        } else if v == 1 {
            Some(EChunkStorageFlags::Compressed)
        } else if v == 2 {
            Some(EChunkStorageFlags::Encrypted)
        } else {
            None
        }
    }
}

impl Default for EChunkStorageFlags {
    fn default() -> (r: Self)
        ensures
            r == EChunkStorageFlags::Plain,
    {
        EChunkStorageFlags::Plain
    }
}

/// Which hashes a chunk-data header stores.
#[derive(Debug, PartialEq, Eq, Structural, Copy, Clone)]
pub enum EChunkHashFlags {
    /// No hash stored.
    Nothing,
    /// The 64-bit rolling hash.
    RollingPoly64,
    /// The SHA-1 hash.
    Sha1,
    /// Both hashes.
    Both,
}

impl EChunkHashFlags {
    /// The wire byte of the flag.
    pub open spec fn spec_as_u8(self) -> u8 {
        match self {
            EChunkHashFlags::Nothing => 0,
            EChunkHashFlags::RollingPoly64 => 1,
            EChunkHashFlags::Sha1 => 2,
            EChunkHashFlags::Both => 3,
        }
    }

    /// The wire byte of the flag.
    #[verifier::when_used_as_spec(spec_as_u8)]
    pub fn as_u8(self) -> (r: u8)
        ensures
            r == self.spec_as_u8(),
    {
        match self {
            EChunkHashFlags::Nothing => 0,
            EChunkHashFlags::RollingPoly64 => 1,
            EChunkHashFlags::Sha1 => 2,
            EChunkHashFlags::Both => 3,
        }
    }

    /// The flag a wire byte denotes, if any.
    pub open spec fn spec_from_u8(v: u8) -> Option<EChunkHashFlags> {
        if v == 0 {
            Some(EChunkHashFlags::Nothing)
        } else if v == 1 {
            Some(EChunkHashFlags::RollingPoly64)
        } else if v == 2 {
            Some(EChunkHashFlags::Sha1)
        } else if v == 3 {
            Some(EChunkHashFlags::Both)
        } else {
            None
        }
    }

    /// The flag a wire byte denotes, if any.
    #[verifier::when_used_as_spec(spec_from_u8)]
    pub fn from_u8(v: u8) -> (r: Option<EChunkHashFlags>)
        ensures
            r == Self::spec_from_u8(v),
    {
        if v == 0 {
            Some(EChunkHashFlags::Nothing)
        } else if v == 1 {
            Some(EChunkHashFlags::RollingPoly64)
        } else if v == 2 {
            Some(EChunkHashFlags::Sha1)
        } else if v == 3 {
            Some(EChunkHashFlags::Both)
        } else {
            None
        }
    }
}

impl Default for EChunkHashFlags {
    fn default() -> (r: Self)
        ensures
            r == EChunkHashFlags::Nothing,
    {
        EChunkHashFlags::Nothing
    }
}

/// The version of a chunk-data file header.  Two labels are aliases onto
/// other numeric values, so equality goes by the numeric value.
#[derive(Debug, Clone, Copy)]
pub enum EChunkVersion {
    Invalid,
    Original,
    StoresShaAndHashType,
    StoresDataSizeUncompressed,
    /// One past the latest version, for initialization convenience.
    LatestPlusOne,
    /// An alias for the latest real version.
    Latest,
}

impl EChunkVersion {
    /// The numeric value of the version; aliases resolve here.
    pub open spec fn spec_to_i32(&self) -> i32 {
        match self {
            EChunkVersion::Invalid => 0,
            EChunkVersion::Original => 1,
            EChunkVersion::StoresShaAndHashType => 2,
            EChunkVersion::StoresDataSizeUncompressed => 3,
            EChunkVersion::LatestPlusOne => 4,
            EChunkVersion::Latest => 3,
        }
    }

    /// The numeric value of the version; aliases resolve here.
    #[verifier::when_used_as_spec(spec_to_i32)]
    pub fn to_i32(&self) -> (r: i32)
        ensures
            r == self.spec_to_i32(),
    {
        match self {
            EChunkVersion::Invalid => 0,
            EChunkVersion::Original => 1,
            EChunkVersion::StoresShaAndHashType => 2,
            EChunkVersion::StoresDataSizeUncompressed => 3,
            EChunkVersion::LatestPlusOne => 4,
            EChunkVersion::Latest => 3,
        }
    }

    /// The label a numeric value denotes; anything unknown reads as
    /// `Invalid`.
    pub open spec fn spec_from_i32(value: i32) -> EChunkVersion {
        if value == 1 {
            EChunkVersion::Original
        } else if value == 2 {
            EChunkVersion::StoresShaAndHashType
        } else if value == 3 {
            EChunkVersion::StoresDataSizeUncompressed
        } else if value == 4 {
            EChunkVersion::LatestPlusOne
        } else if value == 5 {
            EChunkVersion::Latest
        } else {
            EChunkVersion::Invalid
        }
    }

    /// The label a numeric value denotes; anything unknown reads as
    /// `Invalid`.
    #[verifier::when_used_as_spec(spec_from_i32)]
    pub fn from_i32(value: i32) -> (r: EChunkVersion)
        ensures
            r == Self::spec_from_i32(value),
    {
        if value == 1 {
            EChunkVersion::Original
        } else if value == 2 {
            EChunkVersion::StoresShaAndHashType
        } else if value == 3 {
            EChunkVersion::StoresDataSizeUncompressed
        } else if value == 4 {
            EChunkVersion::LatestPlusOne
        } else if value == 5 {
            EChunkVersion::Latest
        } else {
            EChunkVersion::Invalid
        }
    }
}

impl PartialEq for EChunkVersion {
    /// Versions compare by numeric value, so aliases equal their targets.
    fn eq(&self, other: &Self) -> bool {
        self.to_i32() == other.to_i32()
    }
}

impl vstd::std_specs::cmp::PartialEqSpecImpl for EChunkVersion {
    open spec fn obeys_eq_spec() -> bool {
        true
    }

    open spec fn eq_spec(&self, other: &Self) -> bool {
        self.spec_to_i32() == other.spec_to_i32()
    }
}

impl Default for EChunkVersion {
    fn default() -> (r: Self)
        ensures
            r == EChunkVersion::Invalid,
    {
        EChunkVersion::Invalid
    }
}

/// The supported-features level of a manifest: a dense signed integer with a
/// sentinel 255, and several alias labels that resolve to other numeric
/// values without introducing new wire codes.
#[derive(Debug, Clone, Copy)]
pub enum EFeatureLevel {
    /// The original version.
    Original,
    /// Support for custom fields.
    CustomFields,
    /// Started storing the version number.
    StartStoringVersion,
    /// Data files renamed to include the hash value.
    DataFileRenames,
    /// Stores whether the build holds chunk or file data.
    StoresIfChunkOrFileData,
    /// Stores group numbers for each chunk.
    StoresDataGroupNumbers,
    /// Added chunk compression support.
    ChunkCompressionSupport,
    /// Stores product prerequisites info.
    StoresPrerequisitesInfo,
    /// Stores chunk download sizes.
    StoresChunkFileSizes,
    /// Optionally stored with object serialization and compressed.
    StoredAsCompressedUClass,
    /// Removed and never used.
    Unused0,
    /// Removed and never used.
    Unused1,
    /// Stores chunk data SHA-1 hashes.
    StoresChunkDataShaHashes,
    /// Stores prerequisite ids.
    StoresPrerequisiteIds,
    /// The first minimal binary format.
    StoredAsBinaryData,
    /// References variable-size chunks without serializing window sizes.
    VariableSizeChunksWithoutWindowSizeChunkInfo,
    /// References and serializes variable-size chunks.
    VariableSizeChunks,
    /// Uses a build id generated from metadata.
    UsesRuntimeGeneratedBuildId,
    /// Uses a build id generated at build time and stored.
    UsesBuildTimeGeneratedBuildId,
    /// One past the latest version.
    LatestPlusOne,
    /// An alias for the latest version.
    Latest,
    /// An alias for the latest version supported by file data.
    LatestNoChunks,
    /// An alias for the latest version supported by the JSON format.
    LatestJson,
    /// An alias for the first version with optimised delta saving.
    FirstOptimisedDelta,
    /// A renamed alias.
    StoresUniqueBuildId,
    /// JSON manifests stored with version 255 during a faulty range.
    BrokenJsonVersion,
    /// The serialization default.
    Invalid,
}

impl EFeatureLevel {
    /// The numeric value of the level; aliases resolve here.
    pub open spec fn spec_to_i32(&self) -> i32 {
        match self {
            EFeatureLevel::Original => 0,
            EFeatureLevel::CustomFields => 1,
            EFeatureLevel::StartStoringVersion => 2,
            EFeatureLevel::DataFileRenames => 3,
            EFeatureLevel::StoresIfChunkOrFileData => 4,
            EFeatureLevel::StoresDataGroupNumbers => 5,
            EFeatureLevel::ChunkCompressionSupport => 6,
            EFeatureLevel::StoresPrerequisitesInfo => 7,
            EFeatureLevel::StoresChunkFileSizes => 8,
            EFeatureLevel::StoredAsCompressedUClass => 9,
            EFeatureLevel::Unused0 => 10,
            EFeatureLevel::Unused1 => 11,
            EFeatureLevel::StoresChunkDataShaHashes => 12,
            EFeatureLevel::StoresPrerequisiteIds => 13,
            EFeatureLevel::StoredAsBinaryData => 14,
            EFeatureLevel::VariableSizeChunksWithoutWindowSizeChunkInfo => 15,
            EFeatureLevel::VariableSizeChunks => 16,
            EFeatureLevel::UsesRuntimeGeneratedBuildId => 17,
            EFeatureLevel::UsesBuildTimeGeneratedBuildId => 18,
            EFeatureLevel::LatestPlusOne => 19,
            EFeatureLevel::Latest => 18,
            EFeatureLevel::LatestNoChunks => 8,
            EFeatureLevel::LatestJson => 13,
            EFeatureLevel::FirstOptimisedDelta => 17,
            EFeatureLevel::StoresUniqueBuildId => 17,
            EFeatureLevel::BrokenJsonVersion => 255,
            EFeatureLevel::Invalid => -1i32,
        }
    }

    /// The numeric value of the level; aliases resolve here.
    #[verifier::when_used_as_spec(spec_to_i32)]
    pub fn to_i32(&self) -> (r: i32)
        ensures
            r == self.spec_to_i32(),
    {
        match self {
            EFeatureLevel::Original => 0,
            EFeatureLevel::CustomFields => 1,
            EFeatureLevel::StartStoringVersion => 2,
            EFeatureLevel::DataFileRenames => 3,
            EFeatureLevel::StoresIfChunkOrFileData => 4,
            EFeatureLevel::StoresDataGroupNumbers => 5,
            EFeatureLevel::ChunkCompressionSupport => 6,
            EFeatureLevel::StoresPrerequisitesInfo => 7,
            EFeatureLevel::StoresChunkFileSizes => 8,
            EFeatureLevel::StoredAsCompressedUClass => 9,
            EFeatureLevel::Unused0 => 10,
            EFeatureLevel::Unused1 => 11,
            EFeatureLevel::StoresChunkDataShaHashes => 12,
            EFeatureLevel::StoresPrerequisiteIds => 13,
            EFeatureLevel::StoredAsBinaryData => 14,
            EFeatureLevel::VariableSizeChunksWithoutWindowSizeChunkInfo => 15,
            EFeatureLevel::VariableSizeChunks => 16,
            EFeatureLevel::UsesRuntimeGeneratedBuildId => 17,
            EFeatureLevel::UsesBuildTimeGeneratedBuildId => 18,
            EFeatureLevel::LatestPlusOne => 19,
            EFeatureLevel::Latest => 18,
            EFeatureLevel::LatestNoChunks => 8,
            EFeatureLevel::LatestJson => 13,
            EFeatureLevel::FirstOptimisedDelta => 17,
            EFeatureLevel::StoresUniqueBuildId => 17,
            EFeatureLevel::BrokenJsonVersion => 255,
            EFeatureLevel::Invalid => -1,
        }
    }

    /// The label a numeric value denotes, if any.
    pub open spec fn spec_from_i32(value: i32) -> Option<EFeatureLevel> {
        if value == 0 {
            Some(EFeatureLevel::Original)
        } else if value == 1 {
            Some(EFeatureLevel::CustomFields)
        } else if value == 2 {
            Some(EFeatureLevel::StartStoringVersion)
        } else if value == 3 {
            Some(EFeatureLevel::DataFileRenames)
        } else if value == 4 {
            Some(EFeatureLevel::StoresIfChunkOrFileData)
        } else if value == 5 {
            Some(EFeatureLevel::StoresDataGroupNumbers)
        } else if value == 6 {
            Some(EFeatureLevel::ChunkCompressionSupport)
        } else if value == 7 {
            Some(EFeatureLevel::StoresPrerequisitesInfo)
        } else if value == 8 {
            Some(EFeatureLevel::StoresChunkFileSizes)
        } else if value == 9 {
            Some(EFeatureLevel::StoredAsCompressedUClass)
        } else if value == 10 {
            Some(EFeatureLevel::Unused0)
        } else if value == 11 {
            Some(EFeatureLevel::Unused1)
        } else if value == 12 {
            Some(EFeatureLevel::StoresChunkDataShaHashes)
        } else if value == 13 {
            Some(EFeatureLevel::StoresPrerequisiteIds)
        } else if value == 14 {
            Some(EFeatureLevel::StoredAsBinaryData)
        } else if value == 15 {
            Some(EFeatureLevel::VariableSizeChunksWithoutWindowSizeChunkInfo)
        } else if value == 16 {
            Some(EFeatureLevel::VariableSizeChunks)
        } else if value == 17 {
            Some(EFeatureLevel::UsesRuntimeGeneratedBuildId)
        } else if value == 18 {
            Some(EFeatureLevel::UsesBuildTimeGeneratedBuildId)
        } else if value == 19 {
            Some(EFeatureLevel::LatestPlusOne)
        } else if value == 20 {
            Some(EFeatureLevel::Latest)
        } else if value == 21 {
            Some(EFeatureLevel::LatestNoChunks)
        } else if value == 22 {
            Some(EFeatureLevel::LatestJson)
        } else if value == 23 {
            Some(EFeatureLevel::FirstOptimisedDelta)
        } else if value == 24 {
            Some(EFeatureLevel::StoresUniqueBuildId)
        } else if value == 255 {
            Some(EFeatureLevel::BrokenJsonVersion)
        } else if value == -1 {
            Some(EFeatureLevel::Invalid)
        } else {
            None
        }
    }

    /// The label a numeric value denotes, if any.
    #[verifier::when_used_as_spec(spec_from_i32)]
    pub fn from_i32(value: i32) -> (r: Option<EFeatureLevel>)
        ensures
            r == Self::spec_from_i32(value),
    {
        if value == 0 {
            Some(EFeatureLevel::Original)
        } else if value == 1 {
            Some(EFeatureLevel::CustomFields)
        } else if value == 2 {
            Some(EFeatureLevel::StartStoringVersion)
        } else if value == 3 {
            Some(EFeatureLevel::DataFileRenames)
        } else if value == 4 {
            Some(EFeatureLevel::StoresIfChunkOrFileData)
        } else if value == 5 {
            Some(EFeatureLevel::StoresDataGroupNumbers)
        } else if value == 6 {
            Some(EFeatureLevel::ChunkCompressionSupport)
        } else if value == 7 {
            Some(EFeatureLevel::StoresPrerequisitesInfo)
        } else if value == 8 {
            Some(EFeatureLevel::StoresChunkFileSizes)
        } else if value == 9 {
            Some(EFeatureLevel::StoredAsCompressedUClass)
        } else if value == 10 {
            Some(EFeatureLevel::Unused0)
        } else if value == 11 {
            Some(EFeatureLevel::Unused1)
        } else if value == 12 {
            Some(EFeatureLevel::StoresChunkDataShaHashes)
        } else if value == 13 {
            Some(EFeatureLevel::StoresPrerequisiteIds)
        } else if value == 14 {
            Some(EFeatureLevel::StoredAsBinaryData)
        } else if value == 15 {
            Some(EFeatureLevel::VariableSizeChunksWithoutWindowSizeChunkInfo)
        } else if value == 16 {
            Some(EFeatureLevel::VariableSizeChunks)
        } else if value == 17 {
            Some(EFeatureLevel::UsesRuntimeGeneratedBuildId)
        } else if value == 18 {
            Some(EFeatureLevel::UsesBuildTimeGeneratedBuildId)
        } else if value == 19 {
            Some(EFeatureLevel::LatestPlusOne)
        } else if value == 20 {
            Some(EFeatureLevel::Latest)
        } else if value == 21 {
            Some(EFeatureLevel::LatestNoChunks)
        } else if value == 22 {
            Some(EFeatureLevel::LatestJson)
        } else if value == 23 {
            Some(EFeatureLevel::FirstOptimisedDelta)
        } else if value == 24 {
            Some(EFeatureLevel::StoresUniqueBuildId)
        } else if value == 255 {
            Some(EFeatureLevel::BrokenJsonVersion)
        } else if value == -1 {
            Some(EFeatureLevel::Invalid)
        } else {
            None
        }
    }
}

impl PartialEq for EFeatureLevel {
    /// Levels compare by numeric value, so aliases equal their targets.
    fn eq(&self, other: &Self) -> bool {
        self.to_i32() == other.to_i32()
    }
}

impl vstd::std_specs::cmp::PartialEqSpecImpl for EFeatureLevel {
    open spec fn obeys_eq_spec() -> bool {
        true
    }

    open spec fn eq_spec(&self, other: &Self) -> bool {
        self.spec_to_i32() == other.spec_to_i32()
    }
}

/// The numeric levels that may stand on the wire: the dense range 0..=18,
/// the sentinel 255, and the serialization default -1.  Alias labels resolve
/// into this set and never stand on the wire themselves.
pub open spec fn is_wire_level(v: i32) -> bool {
    v == -1 || (0 <= v <= 18) || v == 255
}

/// Every wire-level value decodes to a label that maps back onto it.
pub proof fn lemma_wire_level_round_trip(v: i32)
    requires
        is_wire_level(v),
    ensures
        EFeatureLevel::spec_from_i32(v) matches Some(lv) && lv.spec_to_i32() == v,
{
}

/// Every label but `LatestPlusOne` resolves to a wire-level value.
pub proof fn lemma_level_values(lv: EFeatureLevel)
    ensures
        !(lv is LatestPlusOne) ==> is_wire_level(lv.spec_to_i32()),
        lv is LatestPlusOne ==> lv.spec_to_i32() == 19,
{
}

/// Named closures for GUID and SHA-1 columns.
pub open spec fn guid_reader() -> spec_fn(Seq<u8>, int) -> Result<(FGuid, int), ParseError> {
    |b: Seq<u8>, pos: int| sp_guid(b, pos)
}

pub open spec fn guid_encoder() -> spec_fn(FGuid) -> Seq<u8> {
    |g: FGuid| enc_guid(g)
}

pub open spec fn sha_reader() -> spec_fn(Seq<u8>, int) -> Result<(Seq<u8>, int), ParseError> {
    |b: Seq<u8>, pos: int| sp_bytes(b, pos, 20)
}

pub open spec fn sha_encoder() -> spec_fn(Seq<u8>) -> Seq<u8> {
    |s: Seq<u8>| s
}

impl vstd::prelude::DeepView for FSHAHash {
    type V = Seq<u8>;

    open spec fn deep_view(&self) -> Seq<u8> {
        self@
    }
}

impl ByteReader {
    /// Reads `count` consecutive GUIDs.
    pub fn read_guid_column(&mut self, count: u32) -> (r: ParseResult<Vec<FGuid>>)
        requires
            old(self).wf(),
        ensures
            final(self).wf(),
            final(self)@.data == old(self)@.data,
            match crate::wire::sp_many(guid_reader(), old(self)@.data, old(self)@.pos, count as nat) {
                Ok((vs, p)) => r matches Ok(v) && v@ == vs && final(self)@.pos == p,
                Err(e) => r matches Err(e2) && e2 == e,
            },
    {
        let ghost b = self@.data;
        let ghost pos0 = self@.pos;
        let ghost f = guid_reader();
        let ghost n = count as nat;
        let mut out: Vec<FGuid> = Vec::new();
        let mut i: usize = 0;
        proof {
            crate::wire::lemma_sp_many_inv_init(f, b, pos0, n);
        }
        while i < count as usize
            invariant
                self.wf(),
                self@.data == b,
                b == old(self)@.data,
                pos0 == old(self)@.pos,
                i == out.len(),
                i <= count,
                n == count as nat,
                f == guid_reader(),
                crate::wire::sp_many_inv(f, b, pos0, n, out@, self@.pos),
            decreases count - i,
        {
            let ghost p_before = self@.pos;
            let ghost prev = out@;
            match FGuid::read(self) {
                Ok(v) => {
                    proof {
                        assert(f(b, p_before) == sp_guid(b, p_before));
                        crate::wire::lemma_sp_many_inv_step(f, b, pos0, n, prev, p_before, v, self@.pos);
                    }
                    out.push(v);
                },
                Err(e) => {
                    proof {
                        assert(f(b, p_before) == sp_guid(b, p_before));
                        crate::wire::lemma_sp_many_inv_err(f, b, pos0, n, prev, p_before, e);
                    }
                    return Err(e);
                },
            }
            i = i + 1;
        }
        proof {
            crate::wire::lemma_sp_many_inv_finish(f, b, pos0, n, out@, self@.pos);
        }
        Ok(out)
    }

    /// Reads `count` consecutive 20-byte SHA-1 digests.
    pub fn read_sha_column(&mut self, count: u32) -> (r: ParseResult<Vec<FSHAHash>>)
        requires
            old(self).wf(),
        ensures
            final(self).wf(),
            final(self)@.data == old(self)@.data,
            match crate::wire::sp_many(sha_reader(), old(self)@.data, old(self)@.pos, count as nat) {
                Ok((vs, p)) => r matches Ok(v) && v.deep_view() == vs && final(self)@.pos == p,
                Err(e) => r matches Err(e2) && e2 == e,
            },
    {
        let ghost b = self@.data;
        let ghost pos0 = self@.pos;
        let ghost f = sha_reader();
        let ghost n = count as nat;
        let mut out: Vec<FSHAHash> = Vec::new();
        let mut i: usize = 0;
        proof {
            crate::wire::lemma_sp_many_inv_init(f, b, pos0, n);
            assert(out.deep_view() =~= Seq::<Seq<u8>>::empty());
        }
        while i < count as usize
            invariant
                self.wf(),
                self@.data == b,
                b == old(self)@.data,
                pos0 == old(self)@.pos,
                i == out.len(),
                i <= count,
                n == count as nat,
                f == sha_reader(),
                crate::wire::sp_many_inv(f, b, pos0, n, out.deep_view(), self@.pos),
            decreases count - i,
        {
            let ghost p_before = self@.pos;
            let ghost prev = out.deep_view();
            match FSHAHash::read(self) {
                Ok(v) => {
                    proof {
                        assert(f(b, p_before) == sp_bytes(b, p_before, 20));
                        crate::wire::lemma_sp_many_inv_step(f, b, pos0, n, prev, p_before, v@, self@.pos);
                    }
                    out.push(v);
                    proof {
                        assert(out.deep_view() =~= prev.push(out@[i as int]@));
                    }
                },
                Err(e) => {
                    proof {
                        assert(f(b, p_before) == sp_bytes(b, p_before, 20));
                        crate::wire::lemma_sp_many_inv_err(f, b, pos0, n, prev, p_before, e);
                    }
                    return Err(e);
                },
            }
            i = i + 1;
        }
        proof {
            crate::wire::lemma_sp_many_inv_finish(f, b, pos0, n, out.deep_view(), self@.pos);
        }
        Ok(out)
    }
}

/// What a GUID renders as: the four limbs as uppercase hexadecimal, each
/// zero-padded to eight digits, concatenated in order a, b, c, d.
pub open spec fn spec_guid_string(g: FGuid) -> Seq<char> {
    crate::helper::pad_left(crate::helper::to_hex_spec(g.a as u64), 8) + crate::helper::pad_left(
        crate::helper::to_hex_spec(g.b as u64),
        8,
    ) + crate::helper::pad_left(crate::helper::to_hex_spec(g.c as u64), 8)
        + crate::helper::pad_left(crate::helper::to_hex_spec(g.d as u64), 8)
}

/// A 32-bit value renders as at most eight hexadecimal digits.
pub proof fn lemma_hex_u32_len(v: u32)
    ensures
        crate::helper::to_hex_spec(v as u64).len() <= 8,
{
    reveal_with_fuel(crate::helper::pow16, 9);
    crate::helper::lemma_hex_digits_len(v as u64, 8);
}

impl FGuid {
    /// Renders the GUID as 32 uppercase hexadecimal digits.
    pub fn to_string(&self) -> (r: String)
        ensures
            r@ == spec_guid_string(*self),
    {
        proof {
            lemma_hex_u32_len(self.a);
            lemma_hex_u32_len(self.b);
            lemma_hex_u32_len(self.c);
            lemma_hex_u32_len(self.d);
        }
        let pa = crate::helper::pad_left_exec(crate::helper::to_hex(self.a as u64), 8);
        let pb = crate::helper::pad_left_exec(crate::helper::to_hex(self.b as u64), 8);
        let pc = crate::helper::pad_left_exec(crate::helper::to_hex(self.c as u64), 8);
        let pd = crate::helper::pad_left_exec(crate::helper::to_hex(self.d as u64), 8);
        let mut r = pa;
        r.append(pb.as_str());
        r.append(pc.as_str());
        r.append(pd.as_str());
        proof {
            assert(r@ =~= spec_guid_string(*self));
        }
        r
    }
}

/// The 64-bit FNV-1a fingerprint of the first `n` bytes of a sequence, a
/// plain convenience hash for in-memory tables.
pub open spec fn fnv1a(s: Seq<u8>, n: int) -> u64
    decreases n,
{
    if n <= 0 {
        0xcbf29ce484222325
    } else {
        ((((fnv1a(s, n - 1) ^ (s[n - 1] as u64)) as u128) * 0x100000001b3)
            % 0x1_0000_0000_0000_0000) as u64
    }
}

impl FSHAHash {
    /// Renders the digest as 40 lowercase hexadecimal digits.
    pub fn to_string(&self) -> (r: String)
        ensures
            r@ == crate::helper::bytes_hex(self@),
    {
        crate::helper::bytes_to_hex(self.data.as_slice())
    }

    /// Renders the digest as 40 lowercase hexadecimal digits.
    pub fn to_hex_string(&self) -> (r: String)
        ensures
            r@ == crate::helper::bytes_hex(self@),
    {
        crate::helper::bytes_to_hex(self.data.as_slice())
    }

    /// A 64-bit FNV-1a fingerprint of the digest bytes, for use as a table
    /// key.
    pub fn to_hash(&self) -> (r: u64)
        ensures
            r == fnv1a(self@, SHA1_DIGEST_SIZE as int),
    {
        let mut h: u64 = 0xcbf29ce484222325;
        let mut i: usize = 0;
        while i < SHA1_DIGEST_SIZE
            invariant
                i <= SHA1_DIGEST_SIZE,
                self@.len() == SHA1_DIGEST_SIZE,
                h == fnv1a(self@, i as int),
            decreases SHA1_DIGEST_SIZE - i,
        {
            let x: u128 = (h ^ (self.data[i] as u64)) as u128;
            let prod: u128 = x * 0x100000001b3;
            h = (prod % 0x1_0000_0000_0000_0000u128) as u64;
            i = i + 1;
        }
        h
    }
}

impl<const DIGEST_LENGTH: usize> UnknownHash<DIGEST_LENGTH> {
    /// Renders the digest as lowercase hexadecimal, two digits per byte.
    pub fn to_string(&self) -> (r: String)
        ensures
            r@ == crate::helper::bytes_hex(self@),
    {
        crate::helper::bytes_to_hex(self.data.as_slice())
    }
}

impl crate::writer::ByteWritable for FGuid {
    open spec fn wire_bytes(&self) -> Seq<u8> {
        enc_guid(*self)
    }

    fn write(&self, writer: &mut ByteWriter) {
        FGuid::write(self, writer);
    }
}

impl crate::writer::ByteWritable for FSHAHash {
    open spec fn wire_bytes(&self) -> Seq<u8> {
        self@
    }

    fn write(&self, writer: &mut ByteWriter) {
        FSHAHash::write(self, writer);
    }
}

impl<const DIGEST_LENGTH: usize> crate::writer::ByteWritable for UnknownHash<DIGEST_LENGTH> {
    open spec fn wire_bytes(&self) -> Seq<u8> {
        self@
    }

    fn write(&self, writer: &mut ByteWriter) {
        UnknownHash::<DIGEST_LENGTH>::write(self, writer);
    }
}

impl crate::writer::ByteWritable for EManifestStorageFlags {
    open spec fn wire_bytes(&self) -> Seq<u8> {
        crate::wire::enc_u8(self.spec_as_u8())
    }

    fn write(&self, writer: &mut ByteWriter) {
        writer.write_u8(self.as_u8());
    }
}

impl crate::writer::ByteWritable for EChunkStorageFlags {
    open spec fn wire_bytes(&self) -> Seq<u8> {
        crate::wire::enc_u8(self.spec_as_u8())
    }

    fn write(&self, writer: &mut ByteWriter) {
        writer.write_u8(self.as_u8());
    }
}

impl crate::writer::ByteWritable for EChunkHashFlags {
    open spec fn wire_bytes(&self) -> Seq<u8> {
        crate::wire::enc_u8(self.spec_as_u8())
    }

    fn write(&self, writer: &mut ByteWriter) {
        writer.write_u8(self.as_u8());
    }
}

impl crate::writer::ByteWritable for EChunkVersion {
    open spec fn wire_bytes(&self) -> Seq<u8> {
        crate::wire::enc_i32(self.spec_to_i32())
    }

    fn write(&self, writer: &mut ByteWriter) {
        writer.write_i32(self.to_i32());
    }
}

impl crate::writer::ByteWritable for EFeatureLevel {
    open spec fn wire_bytes(&self) -> Seq<u8> {
        crate::wire::enc_i32(self.spec_to_i32())
    }

    fn write(&self, writer: &mut ByteWriter) {
        writer.write_i32(self.to_i32());
    }
}

} // verus!
