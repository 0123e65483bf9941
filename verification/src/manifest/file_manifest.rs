//! One file entry of the file list, with its chunk parts and derived
//! sizes.
use vstd::prelude::*;

use crate::manifest::chunk_part::{part_encoder, part_reader, ChunkPartModel, FChunkPart};
use crate::shared::{FSHAHash, UnknownHash, MD5_DIGEST_SIZE, SHA256_DIGEST_SIZE};
use crate::wire::{cat, enc_string, enc_string_array, enc_u32, sp_bytes, sp_many, sp_u32};
use crate::ParseError;

verus! {

/// Ghost image of a file entry.  `file_size` and the parts' `file_offset`
/// are derived from the part sizes, not stored on the wire.
#[verifier::ext_equal]
pub ghost struct FileManifestModel {
    pub filename: Seq<char>,
    pub syslink_target: Seq<char>,
    pub hash: Seq<u8>,
    pub flags: u8,
    pub install_tags: Seq<Seq<char>>,
    pub chunk_parts: Seq<ChunkPartModel>,
    pub mime_type: Option<Seq<char>>,
    pub hash_md5: Option<Seq<u8>>,
    pub hash_sha256: Option<Seq<u8>>,
    pub file_size: u32,
}

/// The sum of the byte counts of the first `n` parts.
pub open spec fn prefix_size(parts: Seq<ChunkPartModel>, n: int) -> int
    decreases n,
{
    if n <= 0 {
        0
    } else {
        prefix_size(parts, n - 1) + parts[n - 1].size
    }
}

/// The sum of all the parts' byte counts.
pub open spec fn part_sizes_total(parts: Seq<ChunkPartModel>) -> int {
    prefix_size(parts, parts.len() as int)
}

/// The same parts with each `file_offset` set to the sum of the sizes
/// before it.
pub open spec fn with_offsets(parts: Seq<ChunkPartModel>) -> Seq<ChunkPartModel> {
    Seq::new(
        parts.len(),
        |i: int|
            ChunkPartModel {
                guid: parts[i].guid,
                offset: parts[i].offset,
                size: parts[i].size,
                file_offset: prefix_size(parts, i),
            },
    )
}

/// The parts' derived fields are consistent: every `file_offset` is the sum
/// of the sizes before it.
pub open spec fn offsets_consistent(parts: Seq<ChunkPartModel>) -> bool {
    forall|i: int| 0 <= i < parts.len() ==> (#[trigger] parts[i]).file_offset == prefix_size(
        parts,
        i,
    )
}

/// Prefix sums of part sizes are non-negative and bounded by the total.
pub proof fn lemma_prefix_size_bounds(parts: Seq<ChunkPartModel>, k: int)
    requires
        0 <= k <= parts.len(),
    ensures
        0 <= prefix_size(parts, k),
        prefix_size(parts, k) <= part_sizes_total(parts),
    decreases parts.len() - k,
{
    lemma_prefix_size_nonneg(parts, k);
    if k < parts.len() {
        lemma_prefix_size_bounds(parts, k + 1);
        assert(prefix_size(parts, k + 1) == prefix_size(parts, k) + parts[k].size);
    }
}

proof fn lemma_prefix_size_nonneg(parts: Seq<ChunkPartModel>, k: int)
    ensures
        0 <= prefix_size(parts, k),
    decreases k,
{
    if k > 0 {
        lemma_prefix_size_nonneg(parts, k - 1);
    }
}

/// Prefix sums depend only on the parts' sizes.
pub proof fn lemma_prefix_size_same_sizes(s1: Seq<ChunkPartModel>, s2: Seq<ChunkPartModel>, k: int)
    requires
        s1.len() == s2.len(),
        forall|i: int| 0 <= i < s1.len() ==> (#[trigger] s1[i]).size == (#[trigger] s2[i]).size,
        k <= s1.len(),
    ensures
        prefix_size(s1, k) == prefix_size(s2, k),
    decreases k,
{
    if k > 0 {
        lemma_prefix_size_same_sizes(s1, s2, k - 1);
    }
}

/// Reading one entry's chunk parts: a `u32` count, then that many part
/// records; the total of the part sizes must fit the derived `u32` file
/// size.  The parts come back with their derived offsets set.
pub open spec fn sp_parts_entry(b: Seq<u8>, pos: int) -> Result<
    (Seq<ChunkPartModel>, int),
    ParseError,
> {
    match sp_u32(b, pos) {
        Ok((count, p1)) => match sp_many(part_reader(), b, p1, count as nat) {
            Ok((raw, p2)) => if part_sizes_total(raw) <= u32::MAX {
                Ok((with_offsets(raw), p2))
            } else {
                Err(ParseError::InvalidData)
            },
            Err(e) => Err(e),
        },
        Err(e) => Err(e),
    }
}

/// Reading one entry's optional MD5: a `u32` presence flag, then 16 digest
/// bytes when non-zero.
pub open spec fn sp_md5_entry(b: Seq<u8>, pos: int) -> Result<(Option<Seq<u8>>, int), ParseError> {
    match sp_u32(b, pos) {
        Ok((has, p1)) => if has != 0 {
            match sp_bytes(b, p1, MD5_DIGEST_SIZE as int) {
                Ok((d, p2)) => Ok((Some(d), p2)),
                Err(e) => Err(e),
            }
        } else {
            Ok((None, p1))
        },
        Err(e) => Err(e),
    }
}

/// Named closures for the per-entry columns.
pub open spec fn parts_entry_reader() -> spec_fn(Seq<u8>, int) -> Result<
    (Seq<ChunkPartModel>, int),
    ParseError,
> {
    |b: Seq<u8>, pos: int| sp_parts_entry(b, pos)
}

pub open spec fn parts_entry_encoder() -> spec_fn(Seq<ChunkPartModel>) -> Seq<u8> {
    |ps: Seq<ChunkPartModel>| enc_u32(ps.len() as u32) + cat(part_encoder(), ps)
}

pub open spec fn md5_entry_reader() -> spec_fn(Seq<u8>, int) -> Result<
    (Option<Seq<u8>>, int),
    ParseError,
> {
    |b: Seq<u8>, pos: int| sp_md5_entry(b, pos)
}

pub open spec fn md5_entry_encoder() -> spec_fn(Option<Seq<u8>>) -> Seq<u8> {
    |o: Option<Seq<u8>>|
        match o {
            Some(d) => enc_u32(1) + d,
            None => enc_u32(0),
        }
}

pub open spec fn mime_entry_encoder() -> spec_fn(Option<Seq<char>>) -> Seq<u8> {
    |o: Option<Seq<char>>| enc_string(crate::manifest::meta::opt_str(o))
}

pub open spec fn sha256_entry_encoder() -> spec_fn(Option<Seq<u8>>) -> Seq<u8> {
    |o: Option<Seq<u8>>|
        match o {
            Some(d) => d,
            None => Seq::<u8>::empty(),
        }
}

pub open spec fn tags_entry_reader() -> spec_fn(Seq<u8>, int) -> Result<
    (Seq<Seq<char>>, int),
    ParseError,
> {
    |b: Seq<u8>, pos: int| crate::wire::sp_string_array(b, pos)
}

pub open spec fn tags_entry_encoder() -> spec_fn(Seq<Seq<char>>) -> Seq<u8> {
    |ss: Seq<Seq<char>>| enc_string_array(ss)
}

pub open spec fn sha256_raw_reader() -> spec_fn(Seq<u8>, int) -> Result<(Seq<u8>, int), ParseError> {
    |b: Seq<u8>, pos: int| sp_bytes(b, pos, SHA256_DIGEST_SIZE as int)
}

/// The string an optional hash is written as, for mapping columns.
pub open spec fn opt_bytes(o: Option<Seq<u8>>) -> Seq<u8> {
    match o {
        Some(d) => d,
        None => Seq::empty(),
    }
}

/// A parts run written with consistent derived offsets reads back as
/// itself.
pub proof fn lemma_sp_parts_entry_of_enc(b: Seq<u8>, pos: int, ps: Seq<ChunkPartModel>)
    requires
        ps.len() <= u32::MAX,
        offsets_consistent(ps),
        part_sizes_total(ps) <= u32::MAX,
        crate::wire::has_at(b, pos, parts_entry_encoder()(ps)),
    ensures
        sp_parts_entry(b, pos) == Ok::<(Seq<ChunkPartModel>, int), ParseError>((
            ps,
            pos + parts_entry_encoder()(ps).len(),
        )),
{
    vstd::bytes::lemma_auto_spec_u32_to_from_le_bytes();
    let pay = cat(part_encoder(), ps);
    assert(parts_entry_encoder()(ps) == enc_u32(ps.len() as u32) + pay);
    crate::wire::lemma_has_at_split(b, pos, enc_u32(ps.len() as u32), pay);
    crate::wire::lemma_sp_u32_of_enc(b, pos, ps.len() as u32);
    let cleared = Seq::new(
        ps.len(),
        |i: int|
            ChunkPartModel {
                guid: ps[i].guid,
                offset: ps[i].offset,
                size: ps[i].size,
                file_offset: 0,
            },
    );
    assert(forall|i: int|
        0 <= i < ps.len() ==> part_encoder()(#[trigger] ps[i]) == part_encoder()(
            #[trigger] cleared[i],
        ));
    crate::wire::lemma_cat_congruent(part_encoder(), ps, cleared);
    assert forall|x: ChunkPartModel, q: int|
        #![trigger part_reader()(b, q), part_encoder()(x)]
        x.file_offset == 0 && 0 <= q && q + part_encoder()(x).len() <= b.len() && b.subrange(
            q,
            q + part_encoder()(x).len() as int,
        ) == part_encoder()(x) implies part_reader()(b, q) == Ok::<
        (ChunkPartModel, int),
        ParseError,
    >((x, q + part_encoder()(x).len() as int)) by {
        crate::manifest::chunk_part::lemma_sp_chunk_part_of_enc(b, q, x);
        assert((ChunkPartModel { file_offset: 0, ..x }) =~= x);
    }
    assert(forall|i: int| 0 <= i < cleared.len() ==> (#[trigger] cleared[i]).file_offset == 0);
    crate::wire::lemma_sp_many_of_cat(
        part_reader(),
        part_encoder(),
        |x: ChunkPartModel| x.file_offset == 0,
        b,
        pos + 4,
        cleared,
    );
    assert(forall|i: int|
        0 <= i < ps.len() ==> (#[trigger] ps[i]).size == (#[trigger] cleared[i]).size);
    lemma_prefix_size_same_sizes(ps, cleared, ps.len() as int);
    assert(part_sizes_total(cleared) <= u32::MAX);
    assert forall|i: int| 0 <= i < ps.len() implies prefix_size(cleared, i) == prefix_size(
        ps,
        i,
    ) by {
        lemma_prefix_size_same_sizes(ps, cleared, i);
    }
    assert(with_offsets(cleared) =~= ps);
}

/// An optional MD5 written with its presence flag reads back as itself.
pub proof fn lemma_sp_md5_entry_of_enc(b: Seq<u8>, pos: int, o: Option<Seq<u8>>)
    requires
        o matches Some(d) ==> d.len() == MD5_DIGEST_SIZE,
        crate::wire::has_at(b, pos, md5_entry_encoder()(o)),
    ensures
        sp_md5_entry(b, pos) == Ok::<(Option<Seq<u8>>, int), ParseError>((
            o,
            pos + md5_entry_encoder()(o).len(),
        )),
{
    vstd::bytes::lemma_auto_spec_u32_to_from_le_bytes();
    match o {
        Some(d) => {
            assert(md5_entry_encoder()(o) == enc_u32(1) + d);
            crate::wire::lemma_has_at_split(b, pos, enc_u32(1), d);
            crate::wire::lemma_sp_u32_of_enc(b, pos, 1);
            crate::wire::lemma_sp_bytes_of_enc(b, pos + 4, d);
        },
        None => {
            assert(md5_entry_encoder()(o) =~= enc_u32(0));
            crate::wire::lemma_sp_u32_of_enc(b, pos, 0);
        },
    }
}

/// Column projections of an entry sequence, in the order the list stores
/// them.
pub open spec fn fname_col(s: Seq<FileManifestModel>) -> Seq<Seq<char>> {
    s.map_values(|e: FileManifestModel| e.filename)
}

pub open spec fn symlink_col(s: Seq<FileManifestModel>) -> Seq<Seq<char>> {
    s.map_values(|e: FileManifestModel| e.syslink_target)
}

pub open spec fn fhash_col(s: Seq<FileManifestModel>) -> Seq<Seq<u8>> {
    s.map_values(|e: FileManifestModel| e.hash)
}

pub open spec fn flags_col(s: Seq<FileManifestModel>) -> Seq<u8> {
    s.map_values(|e: FileManifestModel| e.flags)
}

pub open spec fn tags_col(s: Seq<FileManifestModel>) -> Seq<Seq<Seq<char>>> {
    s.map_values(|e: FileManifestModel| e.install_tags)
}

pub open spec fn parts_col(s: Seq<FileManifestModel>) -> Seq<Seq<ChunkPartModel>> {
    s.map_values(|e: FileManifestModel| e.chunk_parts)
}

pub open spec fn md5_col(s: Seq<FileManifestModel>) -> Seq<Option<Seq<u8>>> {
    s.map_values(|e: FileManifestModel| e.hash_md5)
}

pub open spec fn mime_col(s: Seq<FileManifestModel>) -> Seq<Option<Seq<char>>> {
    s.map_values(|e: FileManifestModel| e.mime_type)
}

pub open spec fn sha256_col(s: Seq<FileManifestModel>) -> Seq<Option<Seq<u8>>> {
    s.map_values(|e: FileManifestModel| e.hash_sha256)
}

/// Named projection closures for the gated columns.
pub open spec fn opt_str_fn() -> spec_fn(Option<Seq<char>>) -> Seq<char> {
    |o: Option<Seq<char>>| crate::manifest::meta::opt_str(o)
}

pub open spec fn opt_bytes_fn() -> spec_fn(Option<Seq<u8>>) -> Seq<u8> {
    |o: Option<Seq<u8>>| opt_bytes(o)
}

/// The MIME column as the plain strings the wire stores.
pub open spec fn mime_str_col(s: Seq<FileManifestModel>) -> Seq<Seq<char>> {
    mime_col(s).map_values(opt_str_fn())
}

/// The SHA-256 column as the raw digests the wire stores.
pub open spec fn sha256_bytes_col(s: Seq<FileManifestModel>) -> Seq<Seq<u8>> {
    sha256_col(s).map_values(opt_bytes_fn())
}

/// A file entry of a build: filename, optional symlink target, SHA-1, flag
/// bits, install tags, the chunk parts its bytes come from, and optional
/// MD5, MIME type and SHA-256 where the list version stores them.
#[derive(Debug, Clone)]
pub struct FFileManifest {
    pub filename: String,
    pub syslink_target: String,
    pub hash: FSHAHash,
    pub flags: u8,
    pub install_tags: Vec<String>,
    pub chunk_parts: Vec<FChunkPart>,
    pub mime_type: Option<String>,
    pub hash_md5: Option<UnknownHash<MD5_DIGEST_SIZE>>,
    pub hash_sha256: Option<UnknownHash<SHA256_DIGEST_SIZE>>,
    pub file_size: u32,
}

impl View for FFileManifest {
    type V = FileManifestModel;

    open spec fn view(&self) -> FileManifestModel {
        FileManifestModel {
            filename: self.filename@,
            syslink_target: self.syslink_target@,
            hash: self.hash@,
            flags: self.flags,
            install_tags: self.install_tags.deep_view(),
            chunk_parts: self.chunk_parts.deep_view(),
            mime_type: match self.mime_type {
                Some(ref s) => Some(s@),
                None => None,
            },
            hash_md5: match self.hash_md5 {
                Some(ref h) => Some(h@),
                None => None,
            },
            hash_sha256: match self.hash_sha256 {
                Some(ref h) => Some(h@),
                None => None,
            },
            file_size: self.file_size,
        }
    }
}

impl DeepView for FFileManifest {
    type V = FileManifestModel;

    open spec fn deep_view(&self) -> FileManifestModel {
        self@
    }
}

impl PartialEq for FFileManifest {
    /// File entries compare by identity: SHA-1 hash and filename.
    fn eq(&self, other: &Self) -> bool {
        self.hash == other.hash && self.filename == other.filename
    }
}

impl vstd::std_specs::cmp::PartialEqSpecImpl for FFileManifest {
    open spec fn obeys_eq_spec() -> bool {
        true
    }

    open spec fn eq_spec(&self, other: &Self) -> bool {
        self@.hash == other@.hash && self@.filename == other@.filename
    }
}

impl FFileManifest {
    /// Whether the read-only flag bit is set.
    pub fn read_only(&self) -> (r: bool)
        ensures
            r == (self@.flags & 0x01 == 1),
    {
        self.flags & 0x01 == 1
    }

    /// Whether the compressed flag bit is set.
    pub fn compressed(&self) -> (r: bool)
        ensures
            r == (self@.flags & 0x02 != 0),
    {
        self.flags & 0x02 != 0
    }

    /// Whether the executable flag bit is set.
    pub fn executable(&self) -> (r: bool)
        ensures
            r == (self@.flags & 0x04 != 0),
    {
        self.flags & 0x04 != 0
    }

    /// The entry's SHA-1 hash.
    pub fn sha_hash(&self) -> (r: &FSHAHash)
        ensures
            r@ == self@.hash,
    {
        &self.hash
    }

    /// The entry's MD5, when stored.
    pub fn md5_hash(&self) -> (r: Option<&UnknownHash<MD5_DIGEST_SIZE>>)
        ensures
            match r {
                Some(h) => self@.hash_md5 == Some(h@),
                None => self@.hash_md5 is None,
            },
    {
        self.hash_md5.as_ref()
    }

    /// The entry's SHA-256, when stored.
    pub fn sha256_hash(&self) -> (r: Option<&UnknownHash<SHA256_DIGEST_SIZE>>)
        ensures
            match r {
                Some(h) => self@.hash_sha256 == Some(h@),
                None => self@.hash_sha256 is None,
            },
    {
        self.hash_sha256.as_ref()
    }

    /// The derived file size: the sum of the part sizes.
    pub fn file_size(&self) -> (r: u32)
        ensures
            r == self@.file_size,
    {
        self.file_size
    }

    /// The filename.
    pub fn filename(&self) -> (r: &str)
        ensures
            r@ == self@.filename,
    {
        self.filename.as_str()
    }

    /// The symlink target, empty for regular files.
    pub fn syslink_target(&self) -> (r: &str)
        ensures
            r@ == self@.syslink_target,
    {
        self.syslink_target.as_str()
    }

    /// The MIME type, when stored.
    pub fn mime_type(&self) -> (r: Option<&str>)
        ensures
            match r {
                Some(s) => self@.mime_type == Some(s@),
                None => self@.mime_type is None,
            },
    {
        match self.mime_type {
            Some(ref s) => Some(s.as_str()),
            None => None,
        }
    }

    /// The chunk parts the file's bytes come from, in order.
    pub fn chunk_parts(&self) -> (r: &[FChunkPart])
        ensures
            r.deep_view() == self@.chunk_parts,
    {
        self.chunk_parts.as_slice()
    }

    /// The install tags.
    pub fn install_tags(&self) -> (r: &Vec<String>)
        ensures
            r.deep_view() == self@.install_tags,
    {
        &self.install_tags
    }

    /// The entry's SHA-1 hash.
    pub fn hash(&self) -> (r: &FSHAHash)
        ensures
            r@ == self@.hash,
    {
        &self.hash
    }

    /// The raw flag byte.
    pub fn raw_flags(&self) -> (r: u8)
        ensures
            r == self@.flags,
    {
        self.flags
    }
}

} // verus!
