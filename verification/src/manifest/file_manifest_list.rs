//! The file list section: a size-prefixed, column-major list of file
//! entries, with trailing columns gated by the list's data version.
use vstd::prelude::*;

use crate::manifest::chunk_part::{part_encoder, part_reader, sp_chunk_part, ChunkPartModel, FChunkPart};
use crate::manifest::file_manifest::{
    fhash_col, flags_col, fname_col, lemma_prefix_size_bounds, lemma_prefix_size_same_sizes,
    lemma_sp_md5_entry_of_enc, lemma_sp_parts_entry_of_enc, md5_col, md5_entry_encoder,
    md5_entry_reader, mime_col, mime_entry_encoder, mime_str_col, offsets_consistent,
    opt_bytes_fn, opt_str_fn, part_sizes_total, parts_col, parts_entry_encoder, parts_entry_reader,
    prefix_size, sha256_bytes_col, sha256_col, sha256_entry_encoder, sha256_raw_reader,
    sp_md5_entry, sp_parts_entry, symlink_col, tags_col, tags_entry_encoder, tags_entry_reader,
    with_offsets, FFileManifest, FileManifestModel,
};
use crate::manifest::meta::opt_str;
use crate::reader::{reversed, ByteReader};
use crate::shared::{sha_encoder, sha_reader, UnknownHash, MD5_DIGEST_SIZE, SHA256_DIGEST_SIZE};
use crate::wire::{
    cat, enc_string, enc_string_array, enc_u32, enc_u8, has_at, lemma_cat_push, lemma_has_at_split,
    lemma_sp_many_len, lemma_sp_many_of_cat, lemma_sp_string_of_enc, lemma_sp_u32_of_enc,
    lemma_sp_u8_of_enc, sp_bytes, sp_many, sp_string_array, sp_u32, sp_u8, str_encoder,
    str_reader, u8_encoder, u8_reader, wf_str,
};
use crate::writer::ByteWriter;
use crate::{ParseError, ParseResult};

verus! {

/// Ghost image of the file list: its stored data version and the entries in
/// order.
#[verifier::ext_equal]
pub ghost struct FileListModel {
    pub version: u8,
    pub entries: Seq<FileManifestModel>,
}

/// Rebuilding entries from the columns; the trailing columns count only
/// when the version stores them, and the file size is derived from the
/// parts.
pub open spec fn zip_files(
    version: u8,
    fnames: Seq<Seq<char>>,
    syms: Seq<Seq<char>>,
    hashes: Seq<Seq<u8>>,
    flagss: Seq<u8>,
    tagss: Seq<Seq<Seq<char>>>,
    partss: Seq<Seq<ChunkPartModel>>,
    md5s: Seq<Option<Seq<u8>>>,
    mimes: Seq<Seq<char>>,
    sha256s: Seq<Seq<u8>>,
    n: nat,
) -> Seq<FileManifestModel> {
    Seq::new(
        n,
        |i: int|
            FileManifestModel {
                filename: fnames[i],
                syslink_target: syms[i],
                hash: hashes[i],
                flags: flagss[i],
                install_tags: tagss[i],
                chunk_parts: partss[i],
                mime_type: if version >= 1 {
                    Some(mimes[i])
                } else {
                    None
                },
                hash_md5: if version >= 1 {
                    md5s[i]
                } else {
                    None
                },
                hash_sha256: if version >= 2 {
                    Some(sha256s[i])
                } else {
                    None
                },
                file_size: part_sizes_total(partss[i]) as u32,
            },
    )
}

/// The final step of reading the file list: the cursor must land at
/// `start + size`.
pub open spec fn sp_file_list_fin(
    pos: int,
    size: u32,
    version: u8,
    count: u32,
    fnames: Seq<Seq<char>>,
    syms: Seq<Seq<char>>,
    hashes: Seq<Seq<u8>>,
    flagss: Seq<u8>,
    tagss: Seq<Seq<Seq<char>>>,
    partss: Seq<Seq<ChunkPartModel>>,
    md5s: Seq<Option<Seq<u8>>>,
    mimes: Seq<Seq<char>>,
    sha256s: Seq<Seq<u8>>,
    p_end: int,
) -> Result<(FileListModel, int), ParseError> {
    if p_end - pos == size {
        Ok(
            (
                FileListModel {
                    version,
                    entries: zip_files(
                        version,
                        fnames,
                        syms,
                        hashes,
                        flagss,
                        tagss,
                        partss,
                        md5s,
                        mimes,
                        sha256s,
                        count as nat,
                    ),
                },
                p_end,
            ),
        )
    } else {
        Err(ParseError::InvalidData)
    }
}

/// The version-gated trailing columns of the file list.
pub open spec fn sp_file_list_tail(
    b: Seq<u8>,
    pos: int,
    size: u32,
    version: u8,
    count: u32,
    fnames: Seq<Seq<char>>,
    syms: Seq<Seq<char>>,
    hashes: Seq<Seq<u8>>,
    flagss: Seq<u8>,
    tagss: Seq<Seq<Seq<char>>>,
    partss: Seq<Seq<ChunkPartModel>>,
    p9: int,
) -> Result<(FileListModel, int), ParseError> {
    if version >= 1 {
        match sp_many(md5_entry_reader(), b, p9, count as nat) {
            Ok((md5s, p10)) => match sp_many(str_reader(), b, p10, count as nat) {
                Ok((mimes, p11)) => if version >= 2 {
                    match sp_many(sha256_raw_reader(), b, p11, count as nat) {
                        Ok((sha256s, p12)) => sp_file_list_fin(
                            pos,
                            size,
                            version,
                            count,
                            fnames,
                            syms,
                            hashes,
                            flagss,
                            tagss,
                            partss,
                            md5s,
                            mimes,
                            sha256s,
                            p12,
                        ),
                        Err(e) => Err(e),
                    }
                } else {
                    sp_file_list_fin(
                        pos,
                        size,
                        version,
                        count,
                        fnames,
                        syms,
                        hashes,
                        flagss,
                        tagss,
                        partss,
                        md5s,
                        mimes,
                        Seq::empty(),
                        p11,
                    )
                },
                Err(e) => Err(e),
            },
            Err(e) => Err(e),
        }
    } else {
        sp_file_list_fin(
            pos,
            size,
            version,
            count,
            fnames,
            syms,
            hashes,
            flagss,
            tagss,
            partss,
            Seq::empty(),
            Seq::empty(),
            Seq::empty(),
            p9,
        )
    }
}

/// Reading the file list section.
pub open spec fn sp_file_list(b: Seq<u8>, pos: int) -> Result<(FileListModel, int), ParseError> {
    match sp_u32(b, pos) {
        Ok((size, p1)) => match sp_u8(b, p1) {
            Ok((version, p2)) => match sp_u32(b, p2) {
                Ok((count, p3)) => match sp_many(str_reader(), b, p3, count as nat) {
                    Ok((fnames, p4)) => match sp_many(str_reader(), b, p4, count as nat) {
                        Ok((syms, p5)) => match sp_many(sha_reader(), b, p5, count as nat) {
                            Ok((hashes, p6)) => match sp_many(u8_reader(), b, p6, count as nat) {
                                Ok((flagss, p7)) => match sp_many(
                                    tags_entry_reader(),
                                    b,
                                    p7,
                                    count as nat,
                                ) {
                                    Ok((tagss, p8)) => match sp_many(
                                        parts_entry_reader(),
                                        b,
                                        p8,
                                        count as nat,
                                    ) {
                                        Ok((partss, p9)) => sp_file_list_tail(
                                            b,
                                            pos,
                                            size,
                                            version,
                                            count,
                                            fnames,
                                            syms,
                                            hashes,
                                            flagss,
                                            tagss,
                                            partss,
                                            p9,
                                        ),
                                        Err(e) => Err(e),
                                    },
                                    Err(e) => Err(e),
                                },
                                Err(e) => Err(e),
                            },
                            Err(e) => Err(e),
                        },
                        Err(e) => Err(e),
                    },
                    Err(e) => Err(e),
                },
                Err(e) => Err(e),
            },
            Err(e) => Err(e),
        },
        Err(e) => Err(e),
    }
}

/// The body of the file list section (everything after the size field).
pub open spec fn file_list_body(m: FileListModel) -> Seq<u8> {
    enc_u8(m.version) + enc_u32(m.entries.len() as u32) + cat(str_encoder(), fname_col(m.entries))
        + cat(str_encoder(), symlink_col(m.entries)) + cat(sha_encoder(), fhash_col(m.entries))
        + cat(u8_encoder(), flags_col(m.entries)) + cat(tags_entry_encoder(), tags_col(m.entries))
        + cat(parts_entry_encoder(), parts_col(m.entries)) + (if m.version >= 1 {
        cat(md5_entry_encoder(), md5_col(m.entries))
    } else {
        Seq::empty()
    }) + (if m.version >= 1 {
        cat(mime_entry_encoder(), mime_col(m.entries))
    } else {
        Seq::empty()
    }) + (if m.version >= 2 {
        cat(sha256_entry_encoder(), sha256_col(m.entries))
    } else {
        Seq::empty()
    })
}

/// The whole section: a `u32` size that counts itself, then the body.
pub open spec fn enc_file_list(m: FileListModel) -> Seq<u8> {
    enc_u32((file_list_body(m).len() + 4) as u32) + file_list_body(m)
}

/// One entry the writer can emit under the given list version.
pub open spec fn wf_file_entry_emit(e: FileManifestModel, version: u8) -> bool {
    &&& wf_str(e.filename)
    &&& wf_str(e.syslink_target)
    &&& e.install_tags.len() <= u32::MAX
    &&& forall|i: int| 0 <= i < e.install_tags.len() ==> wf_str(#[trigger] e.install_tags[i])
    &&& e.chunk_parts.len() <= u32::MAX
    &&& (version >= 1 ==> wf_str(opt_str(e.mime_type)))
}

/// A file list the writer can emit.
pub open spec fn wf_file_list_emit(m: FileListModel) -> bool {
    &&& m.entries.len() <= u32::MAX
    &&& file_list_body(m).len() + 4 <= u32::MAX
    &&& forall|i: int|
        0 <= i < m.entries.len() ==> wf_file_entry_emit(#[trigger] m.entries[i], m.version)
}

/// One entry that also parses back as itself: hashes of the right widths,
/// option fields present exactly when the version stores them, and derived
/// sizes consistent.
pub open spec fn wf_file_entry(e: FileManifestModel, version: u8) -> bool {
    &&& wf_file_entry_emit(e, version)
    &&& e.hash.len() == 20
    &&& (e.mime_type is Some <==> version >= 1)
    &&& (e.hash_md5 is Some ==> version >= 1)
    &&& (e.hash_md5 matches Some(d) ==> d.len() == MD5_DIGEST_SIZE)
    &&& (e.hash_sha256 is Some <==> version >= 2)
    &&& (e.hash_sha256 matches Some(d) ==> d.len() == SHA256_DIGEST_SIZE)
    &&& offsets_consistent(e.chunk_parts)
    &&& part_sizes_total(e.chunk_parts) <= u32::MAX
    &&& e.file_size as int == part_sizes_total(e.chunk_parts)
}

/// A file list that parses back as itself.
pub open spec fn wf_file_list(m: FileListModel) -> bool {
    &&& wf_file_list_emit(m)
    &&& forall|i: int| 0 <= i < m.entries.len() ==> wf_file_entry(#[trigger] m.entries[i], m.version)
}

/// The file list of a manifest.
#[derive(Debug, Clone)]
pub struct FFileManifestList {
    pub _version: u8,
    pub entries: Vec<FFileManifest>,
}

impl View for FFileManifestList {
    type V = FileListModel;

    open spec fn view(&self) -> FileListModel {
        FileListModel { version: self._version, entries: self.entries.deep_view() }
    }
}

impl FFileManifestList {
    /// Builds a file list from its parts.
    pub fn new(version: u8, entries: Vec<FFileManifest>) -> (r: FFileManifestList)
        ensures
            r@ == (FileListModel { version, entries: entries.deep_view() }),
    {
        FFileManifestList { _version: version, entries }
    }

    /// The entries in order.
    pub fn entries(&self) -> (r: &Vec<FFileManifest>)
        ensures
            r.deep_view() == self@.entries,
    {
        &self.entries
    }
}

/// Reads one entry's chunk parts and their derived sizes: the raw records,
/// the total size check, then a pass filling in the derived offsets.
pub fn read_parts_entry(reader: &mut ByteReader) -> (r: ParseResult<(Vec<FChunkPart>, u32)>)
    requires
        old(reader).wf(),
    ensures
        final(reader).wf(),
        final(reader)@.data == old(reader)@.data,
        match sp_parts_entry(old(reader)@.data, old(reader)@.pos) {
            Ok((ps, p)) => r matches Ok(v) && v.0.deep_view() == ps && v.1 as int
                == part_sizes_total(ps) && final(reader)@.pos == p,
            Err(e) => r matches Err(e2) && e2 == e,
        },
{
    let ghost b = reader@.data;
    let ghost pos0 = reader@.pos;
    let count = match reader.read_u32() {
        Ok(v) => v,
        Err(e) => {
            return Err(e);
        },
    };
    let ghost p1 = reader@.pos;
    let ghost f = part_reader();
    let ghost n = count as nat;
    let mut raw: Vec<FChunkPart> = Vec::new();
    let mut i: usize = 0;
    proof {
        crate::wire::lemma_sp_many_inv_init(f, b, p1, n);
        assert(raw.deep_view() =~= Seq::<ChunkPartModel>::empty());
    }
    while i < count as usize
        invariant
            reader.wf(),
            reader@.data == b,
            b == old(reader)@.data,
            pos0 == old(reader)@.pos,
            sp_u32(b, pos0) == Ok::<(u32, int), ParseError>((count, p1)),
            i == raw.len(),
            i <= count,
            n == count as nat,
            f == part_reader(),
            crate::wire::sp_many_inv(f, b, p1, n, raw.deep_view(), reader@.pos),
        decreases count - i,
    {
        let ghost p_before = reader@.pos;
        let ghost prev = raw.deep_view();
        match FChunkPart::parse(reader, 0) {
            Ok(part) => {
                proof {
                    assert(f(b, p_before) == sp_chunk_part(b, p_before));
                    assert(part@ == (ChunkPartModel { file_offset: 0int as int, ..part@ }));
                    crate::wire::lemma_sp_many_inv_step(
                        f,
                        b,
                        p1,
                        n,
                        prev,
                        p_before,
                        part@,
                        reader@.pos,
                    );
                }
                raw.push(part);
                proof {
                    assert(raw.deep_view() =~= prev.push(raw.deep_view()[i as int]));
                }
            },
            Err(e) => {
                proof {
                    assert(f(b, p_before) == sp_chunk_part(b, p_before));
                    crate::wire::lemma_sp_many_inv_err(f, b, p1, n, prev, p_before, e);
                }
                return Err(e);
            },
        }
        i = i + 1;
    }
    proof {
        crate::wire::lemma_sp_many_inv_finish(f, b, p1, n, raw.deep_view(), reader@.pos);
    }
    let ghost rawm = raw.deep_view();
    let mut total: u64 = 0;
    let mut k: usize = 0;
    while k < raw.len()
        invariant
            k <= raw@.len(),
            raw@.len() <= u32::MAX,
            rawm == raw.deep_view(),
            rawm.len() == raw@.len(),
            total as int == prefix_size(rawm, k as int),
            total <= k as int * 0xFFFF_FFFF,
        decreases raw@.len() - k,
    {
        proof {
            assert(rawm[k as int] == raw@[k as int]@);
        }
        total = total + raw[k].size() as u64;
        k = k + 1;
    }
    if total > 0xFFFF_FFFFu64 {
        return Err(ParseError::InvalidData);
    }
    let mut parts: Vec<FChunkPart> = Vec::new();
    let mut acc: u64 = 0;
    let mut k: usize = 0;
    while k < raw.len()
        invariant
            k <= raw@.len(),
            rawm == raw.deep_view(),
            rawm.len() == raw@.len(),
            total as int == part_sizes_total(rawm),
            total <= 0xFFFF_FFFF,
            acc as int == prefix_size(rawm, k as int),
            k == parts.len(),
            forall|j: int| 0 <= j < k ==> parts.deep_view()[j] == with_offsets(rawm)[j],
        decreases raw@.len() - k,
    {
        proof {
            assert(rawm[k as int] == raw@[k as int]@);
            lemma_prefix_size_bounds(rawm, k as int);
            lemma_prefix_size_bounds(rawm, k as int + 1);
        }
        let sz = raw[k].size();
        let g = *raw[k].guid();
        let off = raw[k].offset();
        parts.push(FChunkPart::new(g, off, sz, acc as usize));
        acc = acc + sz as u64;
        k = k + 1;
    }
    proof {
        assert(parts.deep_view() =~= with_offsets(rawm));
        lemma_prefix_size_same_sizes(rawm, with_offsets(rawm), rawm.len() as int);
    }
    Ok((parts, total as u32))
}

/// Reads one entry's optional MD5 digest.
pub fn read_md5_entry(reader: &mut ByteReader) -> (r: ParseResult<Option<UnknownHash<MD5_DIGEST_SIZE>>>)
    requires
        old(reader).wf(),
    ensures
        final(reader).wf(),
        final(reader)@.data == old(reader)@.data,
        match sp_md5_entry(old(reader)@.data, old(reader)@.pos) {
            Ok((o, p)) => r matches Ok(v) && (match v {
                Some(h) => o == Some(h@),
                None => o is None,
            }) && final(reader)@.pos == p,
            Err(e) => r matches Err(e2) && e2 == e,
        },
{
    let has = match reader.read_u32() {
        Ok(v) => v,
        Err(e) => {
            return Err(e);
        },
    };
    if has != 0 {
        match UnknownHash::<MD5_DIGEST_SIZE>::from_byte_reader(reader) {
            Ok(h) => Ok(Some(h)),
            Err(e) => Err(e),
        }
    } else {
        Ok(None)
    }
}

/// Reads `count` consecutive install-tag arrays.
pub fn read_tags_column(reader: &mut ByteReader, count: u32) -> (r: ParseResult<Vec<Vec<String>>>)
    requires
        old(reader).wf(),
    ensures
        final(reader).wf(),
        final(reader)@.data == old(reader)@.data,
        match sp_many(tags_entry_reader(), old(reader)@.data, old(reader)@.pos, count as nat) {
            Ok((vs, p)) => r matches Ok(v) && v.deep_view() == vs && final(reader)@.pos == p,
            Err(e) => r matches Err(e2) && e2 == e,
        },
{
    let ghost b = reader@.data;
    let ghost pos0 = reader@.pos;
    let ghost f = tags_entry_reader();
    let ghost n = count as nat;
    let mut out: Vec<Vec<String>> = Vec::new();
    let mut i: usize = 0;
    proof {
        crate::wire::lemma_sp_many_inv_init(f, b, pos0, n);
        assert(out.deep_view() =~= Seq::<Seq<Seq<char>>>::empty());
    }
    while i < count as usize
        invariant
            reader.wf(),
            reader@.data == b,
            b == old(reader)@.data,
            pos0 == old(reader)@.pos,
            i == out.len(),
            i <= count,
            n == count as nat,
            f == tags_entry_reader(),
            crate::wire::sp_many_inv(f, b, pos0, n, out.deep_view(), reader@.pos),
        decreases count - i,
    {
        let ghost p_before = reader@.pos;
        let ghost prev = out.deep_view();
        match reader.read_string_array() {
            Ok(v) => {
                proof {
                    assert(f(b, p_before) == sp_string_array(b, p_before));
                    crate::wire::lemma_sp_many_inv_step(f, b, pos0, n, prev, p_before, v.deep_view(), reader@.pos);
                }
                out.push(v);
                proof {
                    assert(out.deep_view() =~= prev.push(out@[i as int].deep_view()));
                }
            },
            Err(e) => {
                proof {
                    assert(f(b, p_before) == sp_string_array(b, p_before));
                    crate::wire::lemma_sp_many_inv_err(f, b, pos0, n, prev, p_before, e);
                }
                return Err(e);
            },
        }
        i = i + 1;
    }
    proof {
        crate::wire::lemma_sp_many_inv_finish(f, b, pos0, n, out.deep_view(), reader@.pos);
    }
    Ok(out)
}

/// Reads `count` consecutive per-entry chunk-part runs, together with each
/// entry's derived total size.
pub fn read_parts_column(reader: &mut ByteReader, count: u32) -> (r: ParseResult<
    (Vec<Vec<FChunkPart>>, Vec<u32>),
>)
    requires
        old(reader).wf(),
    ensures
        final(reader).wf(),
        final(reader)@.data == old(reader)@.data,
        match sp_many(parts_entry_reader(), old(reader)@.data, old(reader)@.pos, count as nat) {
            Ok((vs, p)) => r matches Ok(v) && v.0.deep_view() == vs && v.1@.len() == vs.len() && (
            forall|k: int| 0 <= k < vs.len() ==> (#[trigger] v.1@[k]) as int == part_sizes_total(
                vs[k],
            )) && final(reader)@.pos == p,
            Err(e) => r matches Err(e2) && e2 == e,
        },
{
    let ghost b = reader@.data;
    let ghost pos0 = reader@.pos;
    let ghost f = parts_entry_reader();
    let ghost n = count as nat;
    let mut out: Vec<Vec<FChunkPart>> = Vec::new();
    let mut sizes: Vec<u32> = Vec::new();
    let mut i: usize = 0;
    proof {
        crate::wire::lemma_sp_many_inv_init(f, b, pos0, n);
        assert(out.deep_view() =~= Seq::<Seq<ChunkPartModel>>::empty());
    }
    while i < count as usize
        invariant
            reader.wf(),
            reader@.data == b,
            b == old(reader)@.data,
            pos0 == old(reader)@.pos,
            i == out.len(),
            i == sizes.len(),
            i <= count,
            n == count as nat,
            f == parts_entry_reader(),
            forall|k: int| 0 <= k < i ==> (#[trigger] sizes@[k]) as int == part_sizes_total(
                out.deep_view()[k],
            ),
            crate::wire::sp_many_inv(f, b, pos0, n, out.deep_view(), reader@.pos),
        decreases count - i,
    {
        let ghost p_before = reader@.pos;
        let ghost prev = out.deep_view();
        match read_parts_entry(reader) {
            Ok(v) => {
                let (ps, sz) = v;
                proof {
                    assert(f(b, p_before) == sp_parts_entry(b, p_before));
                    crate::wire::lemma_sp_many_inv_step(
                        f,
                        b,
                        pos0,
                        n,
                        prev,
                        p_before,
                        ps.deep_view(),
                        reader@.pos,
                    );
                }
                out.push(ps);
                sizes.push(sz);
                proof {
                    assert(out.deep_view() =~= prev.push(out@[i as int].deep_view()));
                }
            },
            Err(e) => {
                proof {
                    assert(f(b, p_before) == sp_parts_entry(b, p_before));
                    crate::wire::lemma_sp_many_inv_err(f, b, pos0, n, prev, p_before, e);
                }
                return Err(e);
            },
        }
        i = i + 1;
    }
    proof {
        crate::wire::lemma_sp_many_inv_finish(f, b, pos0, n, out.deep_view(), reader@.pos);
    }
    Ok((out, sizes))
}

/// Reads `count` consecutive optional MD5 digests.
pub fn read_md5_column(reader: &mut ByteReader, count: u32) -> (r: ParseResult<Vec<Option<UnknownHash<MD5_DIGEST_SIZE>>>>)
    requires
        old(reader).wf(),
    ensures
        final(reader).wf(),
        final(reader)@.data == old(reader)@.data,
        match sp_many(md5_entry_reader(), old(reader)@.data, old(reader)@.pos, count as nat) {
            Ok((vs, p)) => r matches Ok(v) && v.deep_view() == vs && final(reader)@.pos == p,
            Err(e) => r matches Err(e2) && e2 == e,
        },
{
    let ghost b = reader@.data;
    let ghost pos0 = reader@.pos;
    let ghost f = md5_entry_reader();
    let ghost n = count as nat;
    let mut out: Vec<Option<UnknownHash<MD5_DIGEST_SIZE>>> = Vec::new();
    let mut i: usize = 0;
    proof {
        crate::wire::lemma_sp_many_inv_init(f, b, pos0, n);
        assert(out.deep_view() =~= Seq::<Option<Seq<u8>>>::empty());
    }
    while i < count as usize
        invariant
            reader.wf(),
            reader@.data == b,
            b == old(reader)@.data,
            pos0 == old(reader)@.pos,
            i == out.len(),
            i <= count,
            n == count as nat,
            f == md5_entry_reader(),
            crate::wire::sp_many_inv(f, b, pos0, n, out.deep_view(), reader@.pos),
        decreases count - i,
    {
        let ghost p_before = reader@.pos;
        let ghost prev = out.deep_view();
        match read_md5_entry(reader) {
            Ok(v) => {
                let ghost vm = match v {
                    Some(h) => Some(h@),
                    None => None,
                };
                proof {
                    assert(f(b, p_before) == sp_md5_entry(b, p_before));
                    crate::wire::lemma_sp_many_inv_step(f, b, pos0, n, prev, p_before, vm, reader@.pos);
                }
                out.push(v);
                proof {
                    assert(out.deep_view() =~= prev.push(vm));
                }
            },
            Err(e) => {
                proof {
                    assert(f(b, p_before) == sp_md5_entry(b, p_before));
                    crate::wire::lemma_sp_many_inv_err(f, b, pos0, n, prev, p_before, e);
                }
                return Err(e);
            },
        }
        i = i + 1;
    }
    proof {
        crate::wire::lemma_sp_many_inv_finish(f, b, pos0, n, out.deep_view(), reader@.pos);
    }
    Ok(out)
}

/// Reads `count` consecutive SHA-256 digests.
pub fn read_sha256_column(reader: &mut ByteReader, count: u32) -> (r: ParseResult<Vec<UnknownHash<SHA256_DIGEST_SIZE>>>)
    requires
        old(reader).wf(),
    ensures
        final(reader).wf(),
        final(reader)@.data == old(reader)@.data,
        match sp_many(sha256_raw_reader(), old(reader)@.data, old(reader)@.pos, count as nat) {
            Ok((vs, p)) => r matches Ok(v) && v.deep_view() == vs && final(reader)@.pos == p,
            Err(e) => r matches Err(e2) && e2 == e,
        },
{
    let ghost b = reader@.data;
    let ghost pos0 = reader@.pos;
    let ghost f = sha256_raw_reader();
    let ghost n = count as nat;
    let mut out: Vec<UnknownHash<SHA256_DIGEST_SIZE>> = Vec::new();
    let mut i: usize = 0;
    proof {
        crate::wire::lemma_sp_many_inv_init(f, b, pos0, n);
        assert(out.deep_view() =~= Seq::<Seq<u8>>::empty());
    }
    while i < count as usize
        invariant
            reader.wf(),
            reader@.data == b,
            b == old(reader)@.data,
            pos0 == old(reader)@.pos,
            i == out.len(),
            i <= count,
            n == count as nat,
            f == sha256_raw_reader(),
            crate::wire::sp_many_inv(f, b, pos0, n, out.deep_view(), reader@.pos),
        decreases count - i,
    {
        let ghost p_before = reader@.pos;
        let ghost prev = out.deep_view();
        match UnknownHash::<SHA256_DIGEST_SIZE>::from_byte_reader(reader) {
            Ok(v) => {
                proof {
                    assert(f(b, p_before) == sp_bytes(b, p_before, SHA256_DIGEST_SIZE as int));
                    crate::wire::lemma_sp_many_inv_step(f, b, pos0, n, prev, p_before, v@, reader@.pos);
                }
                out.push(v);
                proof {
                    assert(out.deep_view() =~= prev.push(out@[i as int]@));
                }
            },
            Err(e) => {
                proof {
                    assert(f(b, p_before) == sp_bytes(b, p_before, SHA256_DIGEST_SIZE as int));
                    crate::wire::lemma_sp_many_inv_err(f, b, pos0, n, prev, p_before, e);
                }
                return Err(e);
            },
        }
        i = i + 1;
    }
    proof {
        crate::wire::lemma_sp_many_inv_finish(f, b, pos0, n, out.deep_view(), reader@.pos);
    }
    Ok(out)
}

impl FFileManifestList {
    /// Parses the section: size, version, count, the entry columns, the
    /// version-gated trailing columns, then the derived sizes.
    #[verifier::rlimit(100)]
    #[verifier::spinoff_prover]
    pub fn parse(reader: &mut ByteReader) -> (r: ParseResult<FFileManifestList>)
        requires
            old(reader).wf(),
        ensures
            final(reader).wf(),
            final(reader)@.data == old(reader)@.data,
            match sp_file_list(old(reader)@.data, old(reader)@.pos) {
                Ok((m, p)) => r matches Ok(fl) && fl@ == m && final(reader)@.pos == p,
                Err(e) => r matches Err(e2) && e2 == e,
            },
    {
        let ghost b = reader@.data;
        let ghost pos0 = reader@.pos;
        let start = reader.tell();
        let size = match reader.read_u32() {
            Ok(v) => v,
            Err(e) => {
                return Err(e);
            },
        };
        let version = match reader.read_u8() {
            Ok(v) => v,
            Err(e) => {
                return Err(e);
            },
        };
        let count = match reader.read_u32() {
            Ok(v) => v,
            Err(e) => {
                return Err(e);
            },
        };
        let ghost p3 = reader@.pos;
        let fnames = match reader.read_string_column(count) {
            Ok(v) => v,
            Err(e) => {
                return Err(e);
            },
        };
        let ghost p4 = reader@.pos;
        let syms = match reader.read_string_column(count) {
            Ok(v) => v,
            Err(e) => {
                return Err(e);
            },
        };
        let ghost p5 = reader@.pos;
        let hashes = match reader.read_sha_column(count) {
            Ok(v) => v,
            Err(e) => {
                return Err(e);
            },
        };
        let ghost p6 = reader@.pos;
        let flagss = match reader.read_u8_column(count) {
            Ok(v) => v,
            Err(e) => {
                return Err(e);
            },
        };
        let ghost p7 = reader@.pos;
        let tagss = match read_tags_column(reader, count) {
            Ok(v) => v,
            Err(e) => {
                return Err(e);
            },
        };
        let ghost p8 = reader@.pos;
        let pc = match read_parts_column(reader, count) {
            Ok(v) => v,
            Err(e) => {
                return Err(e);
            },
        };
        let (partss, sizes) = pc;
        let ghost p9 = reader@.pos;
        let mut md5s: Vec<Option<UnknownHash<MD5_DIGEST_SIZE>>> = Vec::new();
        let mut mimes: Vec<String> = Vec::new();
        let mut sha256s: Vec<UnknownHash<SHA256_DIGEST_SIZE>> = Vec::new();
        if version >= 1 {
            md5s = match read_md5_column(reader, count) {
                Ok(v) => v,
                Err(e) => {
                    return Err(e);
                },
            };
            mimes = match reader.read_string_column(count) {
                Ok(v) => v,
                Err(e) => {
                    return Err(e);
                },
            };
        }
        if version >= 2 {
            sha256s = match read_sha256_column(reader, count) {
                Ok(v) => v,
                Err(e) => {
                    return Err(e);
                },
            };
        }
        let end = reader.tell();
        if end < start {
            return Err(ParseError::InvalidData);
        }
        if end - start != size as usize {
            return Err(ParseError::InvalidData);
        }
        let ghost fnames_m = fnames.deep_view();
        let ghost syms_m = syms.deep_view();
        let ghost hashes_m = hashes.deep_view();
        let ghost flagss_m = flagss@;
        let ghost tagss_m = tagss.deep_view();
        let ghost partss_m = partss.deep_view();
        let ghost md5s_m = md5s.deep_view();
        let ghost mimes_m = mimes.deep_view();
        let ghost sha256s_m = sha256s.deep_view();
        let ghost sizes_m = sizes@;
        proof {
            lemma_sp_many_len(str_reader(), b, p3, count as nat, fnames_m, p4);
            lemma_sp_many_len(str_reader(), b, p4, count as nat, syms_m, p5);
            lemma_sp_many_len(sha_reader(), b, p5, count as nat, hashes_m, p6);
            lemma_sp_many_len(u8_reader(), b, p6, count as nat, flagss_m, p7);
            lemma_sp_many_len(tags_entry_reader(), b, p7, count as nat, tagss_m, p8);
            lemma_sp_many_len(parts_entry_reader(), b, p8, count as nat, partss_m, p9);
            if version >= 1 {
                assert(md5s_m.len() == count && mimes_m.len() == count) by {
                    match sp_many(md5_entry_reader(), b, p9, count as nat) {
                        Ok((vs, p10)) => {
                            lemma_sp_many_len(md5_entry_reader(), b, p9, count as nat, vs, p10);
                            match sp_many(str_reader(), b, p10, count as nat) {
                                Ok((vs2, p11)) => {
                                    lemma_sp_many_len(str_reader(), b, p10, count as nat, vs2, p11);
                                },
                                Err(e) => {},
                            }
                        },
                        Err(e) => {},
                    }
                }
            }
            if version >= 2 {
                assert(sha256s_m.len() == count) by {
                    match sp_many(md5_entry_reader(), b, p9, count as nat) {
                        Ok((vs, p10)) => {
                            match sp_many(str_reader(), b, p10, count as nat) {
                                Ok((vs2, p11)) => {
                                    match sp_many(sha256_raw_reader(), b, p11, count as nat) {
                                        Ok((vs3, p12)) => {
                                            lemma_sp_many_len(
                                                sha256_raw_reader(),
                                                b,
                                                p11,
                                                count as nat,
                                                vs3,
                                                p12,
                                            );
                                        },
                                        Err(e) => {},
                                    }
                                },
                                Err(e) => {},
                            }
                        },
                        Err(e) => {},
                    }
                }
            }
        }
        let ghost zipm = zip_files(
            version,
            fnames_m,
            syms_m,
            hashes_m,
            flagss_m,
            tagss_m,
            partss_m,
            md5s_m,
            mimes_m,
            sha256s_m,
            count as nat,
        );
        let mut rf = reversed(fnames);
        let mut rsy = reversed(syms);
        let mut rt = reversed(tagss);
        let mut rp = reversed(partss);
        let mut rm = reversed(mimes);
        let mut entries: Vec<FFileManifest> = Vec::new();
        let mut i: usize = 0;
        while i < count as usize
            invariant
                i <= count,
                i == entries.len(),
                fnames_m.len() == count,
                syms_m.len() == count,
                hashes_m.len() == count,
                flagss_m.len() == count,
                tagss_m.len() == count,
                partss_m.len() == count,
                sizes_m.len() == count,
                version >= 1 ==> md5s_m.len() == count,
                version >= 1 ==> mimes_m.len() == count,
                version >= 2 ==> sha256s_m.len() == count,
                hashes.deep_view() == hashes_m,
                flagss@ == flagss_m,
                md5s.deep_view() == md5s_m,
                sha256s.deep_view() == sha256s_m,
                sizes@ == sizes_m,
                rf@.len() == count - i,
                forall|j: int| 0 <= j < rf@.len() ==> (#[trigger] rf@[j])@ == fnames_m[count - 1
                    - j],
                rsy@.len() == count - i,
                forall|j: int| 0 <= j < rsy@.len() ==> (#[trigger] rsy@[j])@ == syms_m[count - 1
                    - j],
                rt@.len() == count - i,
                forall|j: int| 0 <= j < rt@.len() ==> (#[trigger] rt@[j]).deep_view()
                    == tagss_m[count - 1 - j],
                rp@.len() == count - i,
                forall|j: int| 0 <= j < rp@.len() ==> (#[trigger] rp@[j]).deep_view()
                    == partss_m[count - 1 - j],
                version >= 1 ==> rm@.len() == count - i,
                version >= 1 ==> forall|j: int|
                    0 <= j < rm@.len() ==> (#[trigger] rm@[j])@ == mimes_m[count - 1 - j],
                forall|k: int| 0 <= k < sizes_m.len() ==> (#[trigger] sizes_m[k]) as int
                    == part_sizes_total(partss_m[k]),
                zipm == zip_files(
                    version,
                    fnames_m,
                    syms_m,
                    hashes_m,
                    flagss_m,
                    tagss_m,
                    partss_m,
                    md5s_m,
                    mimes_m,
                    sha256s_m,
                    count as nat,
                ),
                forall|j: int| 0 <= j < i ==> entries.deep_view()[j] == zipm[j],
            decreases count - i,
        {
            let filename = match rf.pop() {
                Some(x) => x,
                None => {
                    return Err(ParseError::InvalidData);
                },
            };
            let syslink_target = match rsy.pop() {
                Some(x) => x,
                None => {
                    return Err(ParseError::InvalidData);
                },
            };
            let tags = match rt.pop() {
                Some(x) => x,
                None => {
                    return Err(ParseError::InvalidData);
                },
            };
            let parts = match rp.pop() {
                Some(x) => x,
                None => {
                    return Err(ParseError::InvalidData);
                },
            };
            let hash = hashes[i];
            let flags = flagss[i];
            let mime_type: Option<String> = if version >= 1 {
                match rm.pop() {
                    Some(x) => Some(x),
                    None => {
                        return Err(ParseError::InvalidData);
                    },
                }
            } else {
                None
            };
            let hash_md5: Option<UnknownHash<MD5_DIGEST_SIZE>> = if version >= 1 {
                md5s[i]
            } else {
                None
            };
            let hash_sha256: Option<UnknownHash<SHA256_DIGEST_SIZE>> = if version >= 2 {
                Some(sha256s[i])
            } else {
                None
            };
            let file_size = sizes[i];
            entries.push(
                FFileManifest {
                    filename,
                    syslink_target,
                    hash,
                    flags,
                    install_tags: tags,
                    chunk_parts: parts,
                    mime_type,
                    hash_md5,
                    hash_sha256,
                    file_size,
                },
            );
            proof {
                assert(entries.deep_view()[i as int] == entries@[i as int]@);
                assert(entries.deep_view()[i as int] =~= zipm[i as int]);
            }
            i = i + 1;
        }
        proof {
            assert(entries.deep_view() =~= zipm);
        }
        Ok(FFileManifestList { _version: version, entries })
    }
}

/// Writes the filename column.
fn write_fnames(entries: &Vec<FFileManifest>, tw: &mut ByteWriter) -> (r: ParseResult<()>)
    ensures
        r is Ok ==> final(tw)@ == old(tw)@ + cat(str_encoder(), fname_col(entries.deep_view())) && (forall|
        j: int|
            0 <= j < entries@.len() ==> wf_str((#[trigger] entries.deep_view()[j]).filename)),
        r matches Err(e) ==> e == ParseError::InvalidData && !(forall|j: int|
            0 <= j < entries@.len() ==> wf_str((#[trigger] entries.deep_view()[j]).filename)),
{
    let ghost em = entries.deep_view();
    let ghost base = tw@;
    let mut i: usize = 0;
    proof {
        assert(fname_col(em).take(0) =~= Seq::<Seq<char>>::empty());
        assert(cat(str_encoder(), fname_col(em).take(0)) =~= Seq::<u8>::empty());
        assert(tw@ =~= base + cat(str_encoder(), fname_col(em).take(0)));
    }
    while i < entries.len()
        invariant
            i <= entries@.len(),
            em == entries.deep_view(),
            tw@ == base + cat(str_encoder(), fname_col(em).take(i as int)),
            forall|j: int| 0 <= j < i ==> wf_str((#[trigger] em[j]).filename),
        decreases entries@.len() - i,
    {
        let ghost before = fname_col(em).take(i as int);
        match tw.write_string(entries[i].filename.as_str()) {
            Ok(()) => {},
            Err(e) => {
                proof {
                    assert(em[i as int] == entries@[i as int]@);
                }
                return Err(e);
            },
        }
        proof {
            assert(em[i as int] == entries@[i as int]@);
            assert(str_encoder()(fname_col(em)[i as int]) == enc_string(entries@[i as int]@.filename));
            lemma_cat_push(str_encoder(), before, fname_col(em)[i as int]);
            assert(before.push(fname_col(em)[i as int]) =~= fname_col(em).take(i + 1));
            assert(tw@ =~= base + cat(str_encoder(), fname_col(em).take(i + 1)));
        }
        i = i + 1;
    }
    proof {
        assert(fname_col(em).take(em.len() as int) =~= fname_col(em));
    }
    Ok(())
}

/// Writes the symlink-target column.
fn write_syms(entries: &Vec<FFileManifest>, tw: &mut ByteWriter) -> (r: ParseResult<()>)
    ensures
        r is Ok ==> final(tw)@ == old(tw)@ + cat(str_encoder(), symlink_col(entries.deep_view())) && (forall|
        j: int|
            0 <= j < entries@.len() ==> wf_str((#[trigger] entries.deep_view()[j]).syslink_target)),
        r matches Err(e) ==> e == ParseError::InvalidData && !(forall|j: int|
            0 <= j < entries@.len() ==> wf_str((#[trigger] entries.deep_view()[j]).syslink_target)),
{
    let ghost em = entries.deep_view();
    let ghost base = tw@;
    let mut i: usize = 0;
    proof {
        assert(symlink_col(em).take(0) =~= Seq::<Seq<char>>::empty());
        assert(cat(str_encoder(), symlink_col(em).take(0)) =~= Seq::<u8>::empty());
        assert(tw@ =~= base + cat(str_encoder(), symlink_col(em).take(0)));
    }
    while i < entries.len()
        invariant
            i <= entries@.len(),
            em == entries.deep_view(),
            tw@ == base + cat(str_encoder(), symlink_col(em).take(i as int)),
            forall|j: int| 0 <= j < i ==> wf_str((#[trigger] em[j]).syslink_target),
        decreases entries@.len() - i,
    {
        let ghost before = symlink_col(em).take(i as int);
        match tw.write_string(entries[i].syslink_target.as_str()) {
            Ok(()) => {},
            Err(e) => {
                proof {
                    assert(em[i as int] == entries@[i as int]@);
                }
                return Err(e);
            },
        }
        proof {
            assert(em[i as int] == entries@[i as int]@);
            assert(str_encoder()(symlink_col(em)[i as int]) == enc_string(entries@[i as int]@.syslink_target));
            lemma_cat_push(str_encoder(), before, symlink_col(em)[i as int]);
            assert(before.push(symlink_col(em)[i as int]) =~= symlink_col(em).take(i + 1));
            assert(tw@ =~= base + cat(str_encoder(), symlink_col(em).take(i + 1)));
        }
        i = i + 1;
    }
    proof {
        assert(symlink_col(em).take(em.len() as int) =~= symlink_col(em));
    }
    Ok(())
}

/// Writes the SHA-1 hash column.
fn write_fhashes(entries: &Vec<FFileManifest>, tw: &mut ByteWriter)
    ensures
        final(tw)@ == old(tw)@ + cat(sha_encoder(), fhash_col(entries.deep_view())),
{
    let ghost em = entries.deep_view();
    let ghost base = tw@;
    let mut i: usize = 0;
    proof {
        assert(fhash_col(em).take(0) =~= Seq::<Seq<u8>>::empty());
        assert(cat(sha_encoder(), fhash_col(em).take(0)) =~= Seq::<u8>::empty());
        assert(tw@ =~= base + cat(sha_encoder(), fhash_col(em).take(0)));
    }
    while i < entries.len()
        invariant
            i <= entries@.len(),
            em == entries.deep_view(),
            tw@ == base + cat(sha_encoder(), fhash_col(em).take(i as int)),
        decreases entries@.len() - i,
    {
        let ghost before = fhash_col(em).take(i as int);
        entries[i].hash.write(tw);
        proof {
            assert(em[i as int] == entries@[i as int]@);
            assert(sha_encoder()(fhash_col(em)[i as int]) == entries@[i as int]@.hash);
            lemma_cat_push(sha_encoder(), before, fhash_col(em)[i as int]);
            assert(before.push(fhash_col(em)[i as int]) =~= fhash_col(em).take(i + 1));
            assert(tw@ =~= base + cat(sha_encoder(), fhash_col(em).take(i + 1)));
        }
        i = i + 1;
    }
    proof {
        assert(fhash_col(em).take(em.len() as int) =~= fhash_col(em));
    }
}

/// Writes the flag-byte column.
fn write_flags(entries: &Vec<FFileManifest>, tw: &mut ByteWriter)
    ensures
        final(tw)@ == old(tw)@ + cat(u8_encoder(), flags_col(entries.deep_view())),
{
    let ghost em = entries.deep_view();
    let ghost base = tw@;
    let mut i: usize = 0;
    proof {
        assert(flags_col(em).take(0) =~= Seq::<u8>::empty());
        assert(cat(u8_encoder(), flags_col(em).take(0)) =~= Seq::<u8>::empty());
        assert(tw@ =~= base + cat(u8_encoder(), flags_col(em).take(0)));
    }
    while i < entries.len()
        invariant
            i <= entries@.len(),
            em == entries.deep_view(),
            tw@ == base + cat(u8_encoder(), flags_col(em).take(i as int)),
        decreases entries@.len() - i,
    {
        let ghost before = flags_col(em).take(i as int);
        tw.write_u8(entries[i].flags);
        proof {
            assert(em[i as int] == entries@[i as int]@);
            assert(u8_encoder()(flags_col(em)[i as int]) == crate::wire::enc_u8(entries@[i as int]@.flags));
            lemma_cat_push(u8_encoder(), before, flags_col(em)[i as int]);
            assert(before.push(flags_col(em)[i as int]) =~= flags_col(em).take(i + 1));
            assert(tw@ =~= base + cat(u8_encoder(), flags_col(em).take(i + 1)));
        }
        i = i + 1;
    }
    proof {
        assert(flags_col(em).take(em.len() as int) =~= flags_col(em));
    }
}

/// Writes the install-tag column.
fn write_tags(entries: &Vec<FFileManifest>, tw: &mut ByteWriter) -> (r: ParseResult<()>)
    ensures
        r is Ok ==> final(tw)@ == old(tw)@ + cat(tags_entry_encoder(), tags_col(entries.deep_view())) && (forall|
        j: int|
            0 <= j < entries@.len() ==> ((#[trigger] entries.deep_view()[j]).install_tags.len() <= u32::MAX && (forall|t: int| 0 <= t < entries.deep_view()[j].install_tags.len() ==> wf_str(#[trigger] entries.deep_view()[j].install_tags[t])))),
        r matches Err(e) ==> e == ParseError::InvalidData && !(forall|j: int|
            0 <= j < entries@.len() ==> ((#[trigger] entries.deep_view()[j]).install_tags.len() <= u32::MAX && (forall|t: int| 0 <= t < entries.deep_view()[j].install_tags.len() ==> wf_str(#[trigger] entries.deep_view()[j].install_tags[t])))),
{
    let ghost em = entries.deep_view();
    let ghost base = tw@;
    let mut i: usize = 0;
    proof {
        assert(tags_col(em).take(0) =~= Seq::<Seq<Seq<char>>>::empty());
        assert(cat(tags_entry_encoder(), tags_col(em).take(0)) =~= Seq::<u8>::empty());
        assert(tw@ =~= base + cat(tags_entry_encoder(), tags_col(em).take(0)));
    }
    while i < entries.len()
        invariant
            i <= entries@.len(),
            em == entries.deep_view(),
            tw@ == base + cat(tags_entry_encoder(), tags_col(em).take(i as int)),
            forall|j: int| 0 <= j < i ==> ((#[trigger] em[j]).install_tags.len() <= u32::MAX && (forall|t: int| 0 <= t < em[j].install_tags.len() ==> wf_str(#[trigger] em[j].install_tags[t]))),
        decreases entries@.len() - i,
    {
        let ghost before = tags_col(em).take(i as int);
        match tw.write_array(&entries[i].install_tags) {
            Ok(()) => {},
            Err(e) => {
                proof {
                    assert(em[i as int] == entries@[i as int]@);
                    assert(em[i as int].install_tags =~= entries@[i as int].install_tags.deep_view());
                    if entries@[i as int].install_tags@.len() <= u32::MAX {
                        let t = choose|t: int|
                            0 <= t < entries@[i as int].install_tags@.len() && !wf_str(
                                entries@[i as int].install_tags@[t]@,
                            );
                        assert(em[i as int].install_tags[t] == entries@[i as int].install_tags@[t]@);
                    }
                    assert(!(em[i as int].install_tags.len() <= u32::MAX && (forall|t: int|
                        0 <= t < em[i as int].install_tags.len() ==> wf_str(
                            #[trigger] em[i as int].install_tags[t],
                        ))));
                }
                return Err(e);
            },
        }
        proof {
            assert(em[i as int] == entries@[i as int]@);
            assert(tags_entry_encoder()(tags_col(em)[i as int]) == enc_string_array(entries@[i as int]@.install_tags));
            lemma_cat_push(tags_entry_encoder(), before, tags_col(em)[i as int]);
            assert(before.push(tags_col(em)[i as int]) =~= tags_col(em).take(i + 1));
            assert(tw@ =~= base + cat(tags_entry_encoder(), tags_col(em).take(i + 1)));
        }
        i = i + 1;
    }
    proof {
        assert(tags_col(em).take(em.len() as int) =~= tags_col(em));
    }
    Ok(())
}

/// Writes the chunk-part column: per entry a count and the part records.
fn write_parts(entries: &Vec<FFileManifest>, tw: &mut ByteWriter) -> (r: ParseResult<()>)
    ensures
        r is Ok ==> final(tw)@ == old(tw)@ + cat(parts_entry_encoder(), parts_col(entries.deep_view()))
            && (forall|j: int|
            0 <= j < entries@.len() ==> (#[trigger] entries.deep_view()[j]).chunk_parts.len()
                <= u32::MAX),
        r matches Err(e) ==> e == ParseError::InvalidData && !(forall|j: int|
            0 <= j < entries@.len() ==> (#[trigger] entries.deep_view()[j]).chunk_parts.len()
                <= u32::MAX),
{
    let ghost em = entries.deep_view();
    let ghost base = tw@;
    let mut i: usize = 0;
    proof {
        assert(parts_col(em).take(0) =~= Seq::<Seq<ChunkPartModel>>::empty());
        assert(cat(parts_entry_encoder(), parts_col(em).take(0)) =~= Seq::<u8>::empty());
        assert(tw@ =~= base + cat(parts_entry_encoder(), parts_col(em).take(0)));
    }
    while i < entries.len()
        invariant
            i <= entries@.len(),
            em == entries.deep_view(),
            tw@ == base + cat(parts_entry_encoder(), parts_col(em).take(i as int)),
            forall|j: int| 0 <= j < i ==> (#[trigger] em[j]).chunk_parts.len() <= u32::MAX,
        decreases entries@.len() - i,
    {
        let ghost before = parts_col(em).take(i as int);
        if entries[i].chunk_parts.len() > 0xFFFF_FFFFusize {
            proof {
                assert(em[i as int] == entries@[i as int]@);
            }
            return Err(ParseError::InvalidData);
        }
        tw.write_u32(entries[i].chunk_parts.len() as u32);
        let ghost eparts = em[i as int].chunk_parts;
        let ghost inner_base = tw@;
        proof {
            assert(em[i as int] == entries@[i as int]@);
            assert(eparts.take(0) =~= Seq::<ChunkPartModel>::empty());
            assert(cat(part_encoder(), eparts.take(0)) =~= Seq::<u8>::empty());
            assert(tw@ =~= inner_base + cat(part_encoder(), eparts.take(0)));
        }
        let mut k: usize = 0;
        while k < entries[i].chunk_parts.len()
            invariant
                i < entries@.len(),
                em == entries.deep_view(),
                eparts == em[i as int].chunk_parts,
                eparts.len() == entries@[i as int].chunk_parts@.len(),
                k <= eparts.len(),
                tw@ == inner_base + cat(part_encoder(), eparts.take(k as int)),
            decreases eparts.len() - k,
        {
            let ghost pbefore = eparts.take(k as int);
            entries[i].chunk_parts[k].write(tw);
            proof {
                assert(em[i as int] == entries@[i as int]@);
                assert(eparts[k as int] == entries@[i as int].chunk_parts@[k as int]@);
                assert(part_encoder()(eparts[k as int]) == crate::manifest::chunk_part::enc_chunk_part(
                    entries@[i as int].chunk_parts@[k as int]@,
                ));
                lemma_cat_push(part_encoder(), pbefore, eparts[k as int]);
                assert(pbefore.push(eparts[k as int]) =~= eparts.take(k + 1));
                assert(tw@ =~= inner_base + cat(part_encoder(), eparts.take(k + 1)));
            }
            k = k + 1;
        }
        proof {
            assert(eparts.take(eparts.len() as int) =~= eparts);
            assert(parts_entry_encoder()(parts_col(em)[i as int]) == enc_u32(eparts.len() as u32)
                + cat(part_encoder(), eparts));
            lemma_cat_push(parts_entry_encoder(), before, parts_col(em)[i as int]);
            assert(before.push(parts_col(em)[i as int]) =~= parts_col(em).take(i + 1));
            assert(tw@ =~= base + cat(parts_entry_encoder(), parts_col(em).take(i + 1)));
        }
        i = i + 1;
    }
    proof {
        assert(parts_col(em).take(em.len() as int) =~= parts_col(em));
    }
    Ok(())
}

/// Writes the optional-MD5 column.
fn write_md5s(entries: &Vec<FFileManifest>, tw: &mut ByteWriter)
    ensures
        final(tw)@ == old(tw)@ + cat(md5_entry_encoder(), md5_col(entries.deep_view())),
{
    let ghost em = entries.deep_view();
    let ghost base = tw@;
    let mut i: usize = 0;
    proof {
        assert(md5_col(em).take(0) =~= Seq::<Option<Seq<u8>>>::empty());
        assert(cat(md5_entry_encoder(), md5_col(em).take(0)) =~= Seq::<u8>::empty());
        assert(tw@ =~= base + cat(md5_entry_encoder(), md5_col(em).take(0)));
    }
    while i < entries.len()
        invariant
            i <= entries@.len(),
            em == entries.deep_view(),
            tw@ == base + cat(md5_entry_encoder(), md5_col(em).take(i as int)),
        decreases entries@.len() - i,
    {
        let ghost before = md5_col(em).take(i as int);
        match entries[i].hash_md5 {
            Some(ref h) => {
                tw.write_u32(1);
                tw.write_bytes(h.data.as_slice());
            },
            None => {
                tw.write_u32(0);
            },
        }
        proof {
            assert(em[i as int] == entries@[i as int]@);
            assert(md5_entry_encoder()(md5_col(em)[i as int]) == (match entries@[i as int]@.hash_md5 {
                Some(d) => enc_u32(1) + d,
                None => enc_u32(0),
            }));
            lemma_cat_push(md5_entry_encoder(), before, md5_col(em)[i as int]);
            assert(before.push(md5_col(em)[i as int]) =~= md5_col(em).take(i + 1));
            assert(tw@ =~= base + cat(md5_entry_encoder(), md5_col(em).take(i + 1)));
        }
        i = i + 1;
    }
    proof {
        assert(md5_col(em).take(em.len() as int) =~= md5_col(em));
    }
}

/// Writes the MIME-type column.
fn write_mimes(entries: &Vec<FFileManifest>, tw: &mut ByteWriter) -> (r: ParseResult<()>)
    ensures
        r is Ok ==> final(tw)@ == old(tw)@ + cat(mime_entry_encoder(), mime_col(entries.deep_view())) && (forall|
        j: int|
            0 <= j < entries@.len() ==> wf_str(opt_str((#[trigger] entries.deep_view()[j]).mime_type))),
        r matches Err(e) ==> e == ParseError::InvalidData && !(forall|j: int|
            0 <= j < entries@.len() ==> wf_str(opt_str((#[trigger] entries.deep_view()[j]).mime_type))),
{
    let ghost em = entries.deep_view();
    let ghost base = tw@;
    let mut i: usize = 0;
    proof {
        assert(mime_col(em).take(0) =~= Seq::<Option<Seq<char>>>::empty());
        assert(cat(mime_entry_encoder(), mime_col(em).take(0)) =~= Seq::<u8>::empty());
        assert(tw@ =~= base + cat(mime_entry_encoder(), mime_col(em).take(0)));
    }
    while i < entries.len()
        invariant
            i <= entries@.len(),
            em == entries.deep_view(),
            tw@ == base + cat(mime_entry_encoder(), mime_col(em).take(i as int)),
            forall|j: int| 0 <= j < i ==> wf_str(opt_str((#[trigger] em[j]).mime_type)),
        decreases entries@.len() - i,
    {
        let ghost before = mime_col(em).take(i as int);
        let wr = match entries[i].mime_type {
            Some(ref s) => tw.write_string(s.as_str()),
            None => {
                let es = String::new();
                tw.write_string(es.as_str())
            },
        };
        match wr {
            Ok(()) => {},
            Err(e) => {
                proof {
                    assert(em[i as int] == entries@[i as int]@);
                }
                return Err(e);
            },
        }
        proof {
            assert(em[i as int] == entries@[i as int]@);
            assert(mime_entry_encoder()(mime_col(em)[i as int]) == enc_string(opt_str(entries@[i as int]@.mime_type)));
            lemma_cat_push(mime_entry_encoder(), before, mime_col(em)[i as int]);
            assert(before.push(mime_col(em)[i as int]) =~= mime_col(em).take(i + 1));
            assert(tw@ =~= base + cat(mime_entry_encoder(), mime_col(em).take(i + 1)));
        }
        i = i + 1;
    }
    proof {
        assert(mime_col(em).take(em.len() as int) =~= mime_col(em));
    }
    Ok(())
}

/// Writes the SHA-256 column.
fn write_sha256s(entries: &Vec<FFileManifest>, tw: &mut ByteWriter)
    ensures
        final(tw)@ == old(tw)@ + cat(sha256_entry_encoder(), sha256_col(entries.deep_view())),
{
    let ghost em = entries.deep_view();
    let ghost base = tw@;
    let mut i: usize = 0;
    proof {
        assert(sha256_col(em).take(0) =~= Seq::<Option<Seq<u8>>>::empty());
        assert(cat(sha256_entry_encoder(), sha256_col(em).take(0)) =~= Seq::<u8>::empty());
        assert(tw@ =~= base + cat(sha256_entry_encoder(), sha256_col(em).take(0)));
    }
    while i < entries.len()
        invariant
            i <= entries@.len(),
            em == entries.deep_view(),
            tw@ == base + cat(sha256_entry_encoder(), sha256_col(em).take(i as int)),
        decreases entries@.len() - i,
    {
        let ghost before = sha256_col(em).take(i as int);
        match entries[i].hash_sha256 {
            Some(ref h) => {
                tw.write_bytes(h.data.as_slice());
            },
            None => {},
        }
        proof {
            assert(em[i as int] == entries@[i as int]@);
            assert(sha256_entry_encoder()(sha256_col(em)[i as int]) == (match entries@[i as int]@.hash_sha256 {
                Some(d) => d,
                None => Seq::<u8>::empty(),
            }));
            lemma_cat_push(sha256_entry_encoder(), before, sha256_col(em)[i as int]);
            assert(before.push(sha256_col(em)[i as int]) =~= sha256_col(em).take(i + 1));
            assert(tw@ =~= base + cat(sha256_entry_encoder(), sha256_col(em).take(i + 1)));
        }
        i = i + 1;
    }
    proof {
        assert(sha256_col(em).take(em.len() as int) =~= sha256_col(em));
    }
}

impl FFileManifestList {
    /// Serializes the section: a recomputed size field, then the columns.
    /// Fails exactly when a string cannot be written or a count or size
    /// does not fit its field.
    #[verifier::rlimit(100)]
    #[verifier::spinoff_prover]
    pub fn write(&self, writer: &mut ByteWriter) -> (r: ParseResult<()>)
        ensures
            r is Ok ==> wf_file_list_emit(self@) && final(writer)@ == old(writer)@ + enc_file_list(
                self@,
            ),
            r matches Err(e) ==> !wf_file_list_emit(self@) && e == ParseError::InvalidData
                && final(writer)@ == old(writer)@,
    {
        let ghost em = self.entries.deep_view();
        let mut tw = ByteWriter::new();
        tw.write_u8(self._version);
        proof {
            assert(tw@ =~= enc_u8(self@.version));
        }
        if self.entries.len() > 0xFFFF_FFFFusize {
            return Err(ParseError::InvalidData);
        }
        tw.write_u32(self.entries.len() as u32);
        let ghost head0 = enc_u8(self@.version) + enc_u32(em.len() as u32);
        proof {
            assert(tw@ == head0);
        }
        match write_fnames(&self.entries, &mut tw) {
            Ok(()) => {},
            Err(e) => {
                proof {
                    let j = choose|j: int|
                        0 <= j < self.entries@.len() && !wf_str(
                            (#[trigger] self.entries.deep_view()[j]).filename,
                        );
                    assert(!wf_file_entry_emit(self@.entries[j], self@.version));
                }
                return Err(e);
            },
        }
        match write_syms(&self.entries, &mut tw) {
            Ok(()) => {},
            Err(e) => {
                proof {
                    let j = choose|j: int|
                        0 <= j < self.entries@.len() && !wf_str(
                            (#[trigger] self.entries.deep_view()[j]).syslink_target,
                        );
                    assert(!wf_file_entry_emit(self@.entries[j], self@.version));
                }
                return Err(e);
            },
        }
        write_fhashes(&self.entries, &mut tw);
        write_flags(&self.entries, &mut tw);
        match write_tags(&self.entries, &mut tw) {
            Ok(()) => {},
            Err(e) => {
                proof {
                    let j = choose|j: int|
                        0 <= j < self.entries@.len() && !((#[trigger] self.entries.deep_view()[
                        j]).install_tags.len() <= u32::MAX && (forall|t: int|
                            0 <= t < self.entries.deep_view()[j].install_tags.len() ==> wf_str(
                                #[trigger] self.entries.deep_view()[j].install_tags[t],
                            )));
                    assert(!wf_file_entry_emit(self@.entries[j], self@.version));
                }
                return Err(e);
            },
        }
        match write_parts(&self.entries, &mut tw) {
            Ok(()) => {},
            Err(e) => {
                proof {
                    let j = choose|j: int|
                        0 <= j < self.entries@.len() && !((#[trigger] self.entries.deep_view()[
                        j]).chunk_parts.len() <= u32::MAX);
                    assert(!wf_file_entry_emit(self@.entries[j], self@.version));
                }
                return Err(e);
            },
        }
        let ghost head6 = head0 + cat(str_encoder(), fname_col(em)) + cat(
            str_encoder(),
            symlink_col(em),
        ) + cat(sha_encoder(), fhash_col(em)) + cat(u8_encoder(), flags_col(em)) + cat(
            tags_entry_encoder(),
            tags_col(em),
        ) + cat(parts_entry_encoder(), parts_col(em));
        proof {
            assert(tw@ == head6);
        }
        if self._version >= 1 {
            write_md5s(&self.entries, &mut tw);
            match write_mimes(&self.entries, &mut tw) {
                Ok(()) => {},
                Err(e) => {
                    proof {
                        let j = choose|j: int|
                            0 <= j < self.entries@.len() && !wf_str(
                                opt_str((#[trigger] self.entries.deep_view()[j]).mime_type),
                            );
                        assert(!wf_file_entry_emit(self@.entries[j], self@.version));
                    }
                    return Err(e);
                },
            }
        }
        if self._version >= 2 {
            write_sha256s(&self.entries, &mut tw);
            proof {
                assert(tw@ == head6 + cat(md5_entry_encoder(), md5_col(em)) + cat(
                    mime_entry_encoder(),
                    mime_col(em),
                ) + cat(sha256_entry_encoder(), sha256_col(em)));
                assert(tw@ =~= file_list_body(self@));
            }
        } else if self._version >= 1 {
            proof {
                assert(tw@ == head6 + cat(md5_entry_encoder(), md5_col(em)) + cat(
                    mime_entry_encoder(),
                    mime_col(em),
                ));
                assert(tw@ =~= file_list_body(self@));
            }
        } else {
            proof {
                assert(tw@ == head6);
                assert(tw@ =~= file_list_body(self@));
            }
        }
        proof {
            assert(tw@ == file_list_body(self@));
        }
        if tw.tell() > 0xFFFF_FFFBusize {
            return Err(ParseError::InvalidData);
        }
        writer.write_u32(tw.tell() as u32 + 4);
        writer.write_bytes(tw.as_bytes());
        proof {
            assert forall|j: int| 0 <= j < em.len() implies wf_file_entry_emit(
                #[trigger] self@.entries[j],
                self@.version,
            ) by {
                assert(self@.entries[j] == self.entries.deep_view()[j]);
            }
            assert(wf_file_list_emit(self@));
            assert(writer@ =~= old(writer)@ + enc_file_list(self@));
        }
        Ok(())
    }
}

/// Positions of the file list's columns inside its encoding.
pub open spec fn file_elem_facts(b: Seq<u8>, pos: int, m: FileListModel) -> bool {
    let en = m.entries;
    let body = file_list_body(m);
    let size = (body.len() + 4) as u32;
    let p1 = pos + 4;
    let t1 = enc_u8(m.version);
    let t2 = t1 + enc_u32(en.len() as u32);
    let t3 = t2 + cat(str_encoder(), fname_col(en));
    let t4 = t3 + cat(str_encoder(), symlink_col(en));
    let t5 = t4 + cat(sha_encoder(), fhash_col(en));
    let t6 = t5 + cat(u8_encoder(), flags_col(en));
    let t7 = t6 + cat(tags_entry_encoder(), tags_col(en));
    let t8 = t7 + cat(parts_entry_encoder(), parts_col(en));
    let t9 = t8 + (if m.version >= 1 {
        cat(md5_entry_encoder(), md5_col(en))
    } else {
        Seq::<u8>::empty()
    });
    let t10 = t9 + (if m.version >= 1 {
        cat(mime_entry_encoder(), mime_col(en))
    } else {
        Seq::<u8>::empty()
    });
    &&& sp_u32(b, pos) == Ok::<(u32, int), ParseError>((size, p1))
    &&& sp_u8(b, p1) == Ok::<(u8, int), ParseError>((m.version, p1 + 1))
    &&& sp_u32(b, p1 + t1.len()) == Ok::<(u32, int), ParseError>((
        en.len() as u32,
        p1 + t2.len(),
    ))
    &&& sp_many(str_reader(), b, p1 + t2.len(), en.len()) == Ok::<
        (Seq<Seq<char>>, int),
        ParseError,
    >((fname_col(en), p1 + t3.len()))
    &&& sp_many(str_reader(), b, p1 + t3.len(), en.len()) == Ok::<
        (Seq<Seq<char>>, int),
        ParseError,
    >((symlink_col(en), p1 + t4.len()))
    &&& sp_many(sha_reader(), b, p1 + t4.len(), en.len()) == Ok::<
        (Seq<Seq<u8>>, int),
        ParseError,
    >((fhash_col(en), p1 + t5.len()))
    &&& sp_many(u8_reader(), b, p1 + t5.len(), en.len()) == Ok::<(Seq<u8>, int), ParseError>((
        flags_col(en),
        p1 + t6.len(),
    ))
    &&& sp_many(tags_entry_reader(), b, p1 + t6.len(), en.len()) == Ok::<
        (Seq<Seq<Seq<char>>>, int),
        ParseError,
    >((tags_col(en), p1 + t7.len()))
    &&& sp_many(parts_entry_reader(), b, p1 + t7.len(), en.len()) == Ok::<
        (Seq<Seq<ChunkPartModel>>, int),
        ParseError,
    >((parts_col(en), p1 + t8.len()))
    &&& (m.version >= 1 ==> sp_many(md5_entry_reader(), b, p1 + t8.len(), en.len()) == Ok::<
        (Seq<Option<Seq<u8>>>, int),
        ParseError,
    >((md5_col(en), p1 + t9.len())))
    &&& (m.version >= 1 ==> sp_many(str_reader(), b, p1 + t9.len(), en.len()) == Ok::<
        (Seq<Seq<char>>, int),
        ParseError,
    >((mime_str_col(en), p1 + t10.len())))
    &&& (m.version >= 2 ==> sp_many(sha256_raw_reader(), b, p1 + t10.len(), en.len()) == Ok::<
        (Seq<Seq<u8>>, int),
        ParseError,
    >((sha256_bytes_col(en), p1 + body.len())))
}

/// Each column of a well-formed file list's encoding reads back in place.
#[verifier::rlimit(100)]
#[verifier::spinoff_prover]
proof fn lemma_sp_file_list_elems(b: Seq<u8>, pos: int, m: FileListModel)
    requires
        wf_file_list(m),
        has_at(b, pos, enc_file_list(m)),
    ensures
        file_elem_facts(b, pos, m),
{
    vstd::bytes::lemma_auto_spec_u32_to_from_le_bytes();
    let en = m.entries;
    let body = file_list_body(m);
    let size = (body.len() + 4) as u32;
    let e1 = enc_u8(m.version);
    let e2 = enc_u32(en.len() as u32);
    let c1 = cat(str_encoder(), fname_col(en));
    let c2 = cat(str_encoder(), symlink_col(en));
    let c3 = cat(sha_encoder(), fhash_col(en));
    let c4 = cat(u8_encoder(), flags_col(en));
    let c5 = cat(tags_entry_encoder(), tags_col(en));
    let c6 = cat(parts_entry_encoder(), parts_col(en));
    let g1 = if m.version >= 1 {
        cat(md5_entry_encoder(), md5_col(en))
    } else {
        Seq::<u8>::empty()
    };
    let g2 = if m.version >= 1 {
        cat(mime_entry_encoder(), mime_col(en))
    } else {
        Seq::<u8>::empty()
    };
    let g3 = if m.version >= 2 {
        cat(sha256_entry_encoder(), sha256_col(en))
    } else {
        Seq::<u8>::empty()
    };
    let t1 = e1;
    let t2 = t1 + e2;
    let t3 = t2 + c1;
    let t4 = t3 + c2;
    let t5 = t4 + c3;
    let t6 = t5 + c4;
    let t7 = t6 + c5;
    let t8 = t7 + c6;
    let t9 = t8 + g1;
    let t10 = t9 + g2;
    assert(body == t10 + g3);
    lemma_has_at_split(b, pos, enc_u32(size), body);
    lemma_sp_u32_of_enc(b, pos, size);
    let p1 = pos + 4;
    lemma_has_at_split(b, p1, t10, g3);
    lemma_has_at_split(b, p1, t9, g2);
    lemma_has_at_split(b, p1, t8, g1);
    lemma_has_at_split(b, p1, t7, c6);
    lemma_has_at_split(b, p1, t6, c5);
    lemma_has_at_split(b, p1, t5, c4);
    lemma_has_at_split(b, p1, t4, c3);
    lemma_has_at_split(b, p1, t3, c2);
    lemma_has_at_split(b, p1, t2, c1);
    lemma_has_at_split(b, p1, t1, e2);
    lemma_sp_u8_of_enc(b, p1, m.version);
    lemma_sp_u32_of_enc(b, p1 + t1.len(), en.len() as u32);
    assert forall|x: Seq<char>, q: int|
        #![trigger str_reader()(b, q), str_encoder()(x)]
        wf_str(x) && 0 <= q && q + str_encoder()(x).len() <= b.len() && b.subrange(
            q,
            q + str_encoder()(x).len() as int,
        ) == str_encoder()(x) implies str_reader()(b, q) == Ok::<(Seq<char>, int), ParseError>((
        x,
        q + str_encoder()(x).len() as int,
    )) by {
        lemma_sp_string_of_enc(b, q, x);
    }
    assert(forall|i: int| 0 <= i < en.len() ==> wf_str(#[trigger] fname_col(en)[i]));
    lemma_sp_many_of_cat(
        str_reader(),
        str_encoder(),
        |x: Seq<char>| wf_str(x),
        b,
        p1 + t2.len(),
        fname_col(en),
    );
    assert(forall|i: int| 0 <= i < en.len() ==> wf_str(#[trigger] symlink_col(en)[i]));
    lemma_sp_many_of_cat(
        str_reader(),
        str_encoder(),
        |x: Seq<char>| wf_str(x),
        b,
        p1 + t3.len(),
        symlink_col(en),
    );
    assert forall|x: Seq<u8>, q: int|
        #![trigger sha_reader()(b, q), sha_encoder()(x)]
        x.len() == 20 && 0 <= q && q + sha_encoder()(x).len() <= b.len() && b.subrange(
            q,
            q + sha_encoder()(x).len() as int,
        ) == sha_encoder()(x) implies sha_reader()(b, q) == Ok::<(Seq<u8>, int), ParseError>((
        x,
        q + sha_encoder()(x).len() as int,
    )) by {
        crate::wire::lemma_sp_bytes_of_enc(b, q, x);
    }
    assert(forall|i: int| 0 <= i < en.len() ==> (#[trigger] fhash_col(en)[i]).len() == 20);
    lemma_sp_many_of_cat(
        sha_reader(),
        sha_encoder(),
        |x: Seq<u8>| x.len() == 20,
        b,
        p1 + t4.len(),
        fhash_col(en),
    );
    assert forall|x: u8, q: int|
        #![trigger u8_reader()(b, q), u8_encoder()(x)]
        true && 0 <= q && q + u8_encoder()(x).len() <= b.len() && b.subrange(
            q,
            q + u8_encoder()(x).len() as int,
        ) == u8_encoder()(x) implies u8_reader()(b, q) == Ok::<(u8, int), ParseError>((
        x,
        q + u8_encoder()(x).len() as int,
    )) by {
        lemma_sp_u8_of_enc(b, q, x);
    }
    lemma_sp_many_of_cat(u8_reader(), u8_encoder(), |x: u8| true, b, p1 + t5.len(), flags_col(en));
    assert forall|x: Seq<Seq<char>>, q: int|
        #![trigger tags_entry_reader()(b, q), tags_entry_encoder()(x)]
        (x.len() <= u32::MAX && (forall|t: int| 0 <= t < x.len() ==> wf_str(#[trigger] x[t]))) && 0
            <= q && q + tags_entry_encoder()(x).len() <= b.len() && b.subrange(
            q,
            q + tags_entry_encoder()(x).len() as int,
        ) == tags_entry_encoder()(x) implies tags_entry_reader()(b, q) == Ok::<
        (Seq<Seq<char>>, int),
        ParseError,
    >((x, q + tags_entry_encoder()(x).len() as int)) by {
        crate::wire::lemma_sp_string_array_of_enc(b, q, x);
    }
    assert(forall|i: int|
        0 <= i < en.len() ==> ((#[trigger] tags_col(en)[i]).len() <= u32::MAX && (forall|t: int|
            0 <= t < tags_col(en)[i].len() ==> wf_str(#[trigger] tags_col(en)[i][t]))));
    lemma_sp_many_of_cat(
        tags_entry_reader(),
        tags_entry_encoder(),
        |x: Seq<Seq<char>>| x.len() <= u32::MAX && (forall|t: int|
            0 <= t < x.len() ==> wf_str(#[trigger] x[t])),
        b,
        p1 + t6.len(),
        tags_col(en),
    );
    assert forall|x: Seq<ChunkPartModel>, q: int|
        #![trigger parts_entry_reader()(b, q), parts_entry_encoder()(x)]
        (x.len() <= u32::MAX && offsets_consistent(x) && part_sizes_total(x) <= u32::MAX) && 0 <= q
            && q + parts_entry_encoder()(x).len() <= b.len() && b.subrange(
            q,
            q + parts_entry_encoder()(x).len() as int,
        ) == parts_entry_encoder()(x) implies parts_entry_reader()(b, q) == Ok::<
        (Seq<ChunkPartModel>, int),
        ParseError,
    >((x, q + parts_entry_encoder()(x).len() as int)) by {
        lemma_sp_parts_entry_of_enc(b, q, x);
    }
    assert(forall|i: int|
        0 <= i < en.len() ==> ((#[trigger] parts_col(en)[i]).len() <= u32::MAX
            && offsets_consistent(parts_col(en)[i]) && part_sizes_total(parts_col(en)[i])
            <= u32::MAX));
    lemma_sp_many_of_cat(
        parts_entry_reader(),
        parts_entry_encoder(),
        |x: Seq<ChunkPartModel>| x.len() <= u32::MAX && offsets_consistent(x) && part_sizes_total(
            x,
        ) <= u32::MAX,
        b,
        p1 + t7.len(),
        parts_col(en),
    );
    if m.version >= 1 {
        assert forall|x: Option<Seq<u8>>, q: int|
            #![trigger md5_entry_reader()(b, q), md5_entry_encoder()(x)]
            (x matches Some(d) ==> d.len() == MD5_DIGEST_SIZE) && 0 <= q && q + md5_entry_encoder()(
                x,
            ).len() <= b.len() && b.subrange(q, q + md5_entry_encoder()(x).len() as int)
                == md5_entry_encoder()(x) implies md5_entry_reader()(b, q) == Ok::<
            (Option<Seq<u8>>, int),
            ParseError,
        >((x, q + md5_entry_encoder()(x).len() as int)) by {
            lemma_sp_md5_entry_of_enc(b, q, x);
        }
        assert(forall|i: int|
            0 <= i < en.len() ==> ((#[trigger] md5_col(en)[i]) matches Some(d) ==> d.len()
                == MD5_DIGEST_SIZE));
        lemma_sp_many_of_cat(
            md5_entry_reader(),
            md5_entry_encoder(),
            |x: Option<Seq<u8>>| x matches Some(d) ==> d.len() == MD5_DIGEST_SIZE,
            b,
            p1 + t8.len(),
            md5_col(en),
        );
        assert(forall|x: Option<Seq<char>>|
            #[trigger] mime_entry_encoder()(x) == str_encoder()(opt_str_fn()(x)));
        crate::wire::lemma_cat_map(str_encoder(), opt_str_fn(), mime_entry_encoder(), mime_col(en));
        assert(forall|i: int| 0 <= i < en.len() ==> wf_str(#[trigger] mime_str_col(en)[i]));
        lemma_sp_many_of_cat(
            str_reader(),
            str_encoder(),
            |x: Seq<char>| wf_str(x),
            b,
            p1 + t9.len(),
            mime_str_col(en),
        );
        assert(mime_str_col(en).len() == en.len());
    }
    if m.version >= 2 {
        assert(forall|x: Option<Seq<u8>>|
            #[trigger] sha256_entry_encoder()(x) == sha_encoder()(opt_bytes_fn()(x)));
        crate::wire::lemma_cat_map(
            sha_encoder(),
            opt_bytes_fn(),
            sha256_entry_encoder(),
            sha256_col(en),
        );
        assert forall|x: Seq<u8>, q: int|
            #![trigger sha256_raw_reader()(b, q), sha_encoder()(x)]
            x.len() == 32 && 0 <= q && q + sha_encoder()(x).len() <= b.len() && b.subrange(
                q,
                q + sha_encoder()(x).len() as int,
            ) == sha_encoder()(x) implies sha256_raw_reader()(b, q) == Ok::<
            (Seq<u8>, int),
            ParseError,
        >((x, q + sha_encoder()(x).len() as int)) by {
            crate::wire::lemma_sp_bytes_of_enc(b, q, x);
        }
        assert(forall|i: int|
            0 <= i < en.len() ==> (#[trigger] sha256_bytes_col(en)[i]).len() == 32);
        lemma_sp_many_of_cat(
            sha256_raw_reader(),
            sha_encoder(),
            |x: Seq<u8>| x.len() == 32,
            b,
            p1 + t10.len(),
            sha256_bytes_col(en),
        );
        assert(sha256_bytes_col(en).len() == en.len());
    }
}

/// A well-formed file list's encoding reads back as itself.
#[verifier::rlimit(100)]
#[verifier::spinoff_prover]
pub proof fn lemma_sp_file_list_of_enc(b: Seq<u8>, pos: int, m: FileListModel)
    requires
        wf_file_list(m),
        has_at(b, pos, enc_file_list(m)),
    ensures
        sp_file_list(b, pos) == Ok::<(FileListModel, int), ParseError>((
            m,
            pos + enc_file_list(m).len(),
        )),
{
    vstd::bytes::lemma_auto_spec_u32_to_from_le_bytes();
    lemma_sp_file_list_elems(b, pos, m);
    let en = m.entries;
    let body = file_list_body(m);
    let size = (body.len() + 4) as u32;
    match sp_file_list(b, pos) {
        Ok((m2, p)) => {
            assert forall|i: int| 0 <= i < en.len() implies m2.entries[i] =~= en[i] by {
                assert((#[trigger] en[i]).file_size as int == part_sizes_total(en[i].chunk_parts));
            }
            assert(m2.entries =~= en);
            assert(m2 =~= m);
            assert(p == pos + enc_file_list(m).len());
        },
        Err(e) => {
            assert(false);
        },
    }
}

} // verus!
