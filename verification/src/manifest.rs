//! The manifest data model and its section codecs.
use vstd::prelude::*;

pub mod chunk_info;
pub mod chunk_list;
pub mod chunk_part;
pub mod chunks;
pub mod custom_fields;
pub mod file_manifest;
pub mod file_manifest_list;
pub mod header;
pub mod meta;

use crate::manifest::chunk_list::{
    enc_chunk_list, lemma_sp_chunk_list_of_enc, sp_chunk_list, wf_chunk_list, ChunkListModel,
    FChunkList,
};
use crate::manifest::custom_fields::{
    enc_custom_fields, lemma_sp_custom_fields_of_enc, sp_custom_fields, unique_keys,
    wf_custom_fields, CustomFieldsModel, FCustomFields,
};
use crate::manifest::chunk_part::ChunkPartModel;
use crate::manifest::file_manifest::{
    lemma_prefix_size_same_sizes, offsets_consistent, part_sizes_total, parts_entry_reader,
    with_offsets,
};
use crate::manifest::file_manifest_list::{
    enc_file_list, lemma_sp_file_list_of_enc, sp_file_list, wf_file_list, wf_file_list_emit,
    FFileManifestList, FileListModel,
};
use crate::manifest::header::{
    enc_header, lemma_sp_envelope_of_enc, sp_envelope, FManifestHeader, HeaderModel,
    MANIFEST_MAGIC,
};
use crate::manifest::meta::{
    enc_meta, lemma_sp_meta_of_enc, sp_meta, wf_meta, wf_meta_emit, FManifestMeta, MetaModel,
};
use crate::reader::ByteReader;
use crate::shared::{is_wire_level, EManifestStorageFlags, FSHAHash};
use crate::trusted::{inflate_of, sha1_of, zlib_deflate};
use crate::wire::{has_at, lemma_has_at_split};
use crate::writer::ByteWriter;
use crate::{ParseError, ParseResult};

verus! {

/// Ghost image of a whole manifest: the envelope header, the four sections,
/// and the raw input bytes the manifest was parsed from.
#[verifier::ext_equal]
pub ghost struct ManifestModel {
    pub header: HeaderModel,
    pub meta: MetaModel,
    pub chunk_list: ChunkListModel,
    pub file_list: FileListModel,
    pub custom_fields: CustomFieldsModel,
    pub data: Seq<u8>,
}

/// The plain payload a manifest serializes to: the four sections in order.
pub open spec fn payload_bytes(m: ManifestModel) -> Seq<u8> {
    enc_meta(m.meta) + enc_chunk_list(m.chunk_list) + enc_file_list(m.file_list)
        + enc_custom_fields(m.custom_fields)
}

/// Reading a whole manifest: the envelope, then the four sections from the
/// plain payload.  Trailing payload bytes after the custom fields are
/// ignored, as producers may pad.
pub open spec fn sp_manifest(b: Seq<u8>) -> Result<ManifestModel, ParseError> {
    match sp_envelope(b) {
        Ok((hm, payload)) => match sp_meta(payload, 0) {
            Ok((mm, p1)) => match sp_chunk_list(payload, p1) {
                Ok((cm, p2)) => match sp_file_list(payload, p2) {
                    Ok((fm, p3)) => match sp_custom_fields(payload, p3) {
                        Ok((cfm, p4)) => Ok(
                            ManifestModel {
                                header: hm,
                                meta: mm,
                                chunk_list: cm,
                                file_list: fm,
                                custom_fields: cfm,
                                data: b,
                            },
                        ),
                        Err(e) => Err(e),
                    },
                    Err(e) => Err(e),
                },
                Err(e) => Err(e),
            },
            Err(e) => Err(e),
        },
        Err(e) => Err(e),
    }
}

/// A manifest the serializer can emit: each section's emit conditions, and
/// a payload that fits the size fields.
pub open spec fn wf_manifest_emit(m: ManifestModel) -> bool {
    &&& wf_meta_emit(m.meta)
    &&& wf_chunk_list(m.chunk_list)
    &&& wf_file_list_emit(m.file_list)
    &&& wf_custom_fields(m.custom_fields)
    &&& payload_bytes(m).len() <= u32::MAX
}

/// A manifest that parses back with the same semantic content: emit
/// conditions, each section's parse-back conditions, and a wire-legal
/// envelope.
pub open spec fn wf_manifest(m: ManifestModel) -> bool {
    &&& wf_manifest_emit(m)
    &&& wf_meta(m.meta)
    &&& wf_file_list(m.file_list)
    &&& unique_keys(m.custom_fields.fields)
    &&& m.header.magic == MANIFEST_MAGIC
    &&& m.header.stored_as < 2
    &&& is_wire_level(m.header.version)
}

/// What the serializer guarantees of its output: the envelope header
/// carries recomputed sizes and the SHA-1 of the plain payload, and the
/// stored bytes inflate back to that payload.
pub open spec fn serialize_rel(m: ManifestModel, out: Seq<u8>) -> bool {
    let payload = payload_bytes(m);
    &&& payload.len() <= u32::MAX
    &&& sha1_of(payload).len() == 20
    &&& exists|c: Seq<u8>|
        {
            &&& out == enc_header(
                HeaderModel {
                    magic: m.header.magic,
                    header_size: 41,
                    data_size_uncompressed: payload.len() as u32,
                    data_size_compressed: c.len() as u32,
                    sha_hash: sha1_of(payload),
                    stored_as: m.header.stored_as,
                    version: m.header.version,
                },
            ) + c
            &&& c.len() <= u32::MAX
            &&& (m.header.stored_as == 1 ==> inflate_of(c) == Some(payload))
            &&& (m.header.stored_as != 1 ==> c == payload)
        }
}

/// A parser holding a manifest's raw bytes and a reader over them.
pub struct FManifestParser {
    pub data: Vec<u8>,
    pub reader: ByteReader,
}

impl FManifestParser {
    /// The reader covers exactly the held bytes.
    pub open spec fn wf(&self) -> bool {
        &&& self.reader.wf()
        &&& self.reader@.data == self.data@
    }

    /// Creates a parser over a copy of the given bytes.
    pub fn new(data: &[u8]) -> (r: FManifestParser)
        ensures
            r.wf(),
            r.data@ == data@,
    {
        let owned = vstd::slice::slice_to_vec(data);
        let for_reader = vstd::slice::slice_to_vec(data);
        FManifestParser { data: owned, reader: ByteReader::new(for_reader) }
    }

    /// Parses the whole manifest: envelope, meta, chunk list, file list,
    /// custom fields.
    pub fn parse(self) -> (r: ParseResult<FManifest>)
        requires
            self.wf(),
        ensures
            match sp_manifest(self.data@) {
                Ok(m) => r matches Ok(fm) && fm@ == m,
                Err(e) => r matches Err(e2) && e2 == e,
            },
    {
        let mut this = self;
        let ghost b = this.data@;
        let pair = match FManifestHeader::parse(&mut this) {
            Ok(p) => p,
            Err(e) => {
                return Err(e);
            },
        };
        let (header, mut reader) = pair;
        let meta = match FManifestMeta::parse(&mut reader) {
            Ok(v) => v,
            Err(e) => {
                return Err(e);
            },
        };
        let chunk_list = match FChunkList::parse(&mut reader, header.version()) {
            Ok(v) => v,
            Err(e) => {
                return Err(e);
            },
        };
        let file_list = match FFileManifestList::parse(&mut reader) {
            Ok(v) => v,
            Err(e) => {
                return Err(e);
            },
        };
        let custom_fields = match FCustomFields::parse(&mut reader) {
            Ok(v) => v,
            Err(e) => {
                return Err(e);
            },
        };
        Ok(FManifest { header, meta, chunk_list, file_list, custom_fields, data: this.data })
    }
}

/// A parsed manifest: the envelope header, the four sections, and the raw
/// bytes it came from.
#[derive(Debug, Clone)]
pub struct FManifest {
    pub header: FManifestHeader,
    pub meta: FManifestMeta,
    pub chunk_list: FChunkList,
    pub file_list: FFileManifestList,
    pub custom_fields: FCustomFields,
    pub data: Vec<u8>,
}

impl View for FManifest {
    type V = ManifestModel;

    open spec fn view(&self) -> ManifestModel {
        ManifestModel {
            header: self.header@,
            meta: self.meta@,
            chunk_list: self.chunk_list@,
            file_list: self.file_list@,
            custom_fields: self.custom_fields@,
            data: self.data@,
        }
    }
}

impl FManifest {
    /// Serializes the manifest: the four sections into a payload, the
    /// payload's SHA-1 and sizes into a fresh header, the payload deflated
    /// when the header says compressed.  Succeeds whenever the content is
    /// emittable and storage is plain; with compressed storage the deflate
    /// call may also refuse.
    #[verifier::rlimit(100)]
    #[verifier::spinoff_prover]
    pub fn serialize(&self) -> (r: ParseResult<Vec<u8>>)
        ensures
            r matches Ok(bytes) ==> serialize_rel(self@, bytes@),
            wf_manifest_emit(self@) && self@.header.stored_as != 1 ==> r is Ok,
            !wf_manifest_emit(self@) ==> r is Err,
            r matches Err(e) ==> e == ParseError::InvalidData,
    {
        let mut dw = ByteWriter::new();
        match self.meta.write(&mut dw) {
            Ok(()) => {},
            Err(e) => {
                return Err(e);
            },
        }
        match self.chunk_list.write(&mut dw) {
            Ok(()) => {},
            Err(e) => {
                return Err(e);
            },
        }
        match self.file_list.write(&mut dw) {
            Ok(()) => {},
            Err(e) => {
                return Err(e);
            },
        }
        match self.custom_fields.write(&mut dw) {
            Ok(()) => {},
            Err(e) => {
                return Err(e);
            },
        }
        proof {
            assert(dw@ =~= payload_bytes(self@));
        }
        let uncompressed = dw.into_bytes();
        if uncompressed.len() > 0xFFFF_FFFFusize {
            return Err(ParseError::InvalidData);
        }
        let data_size_uncompressed: u32 = uncompressed.len() as u32;
        let calculated_hash = FSHAHash::new_from_hashable(uncompressed.as_slice());
        let is_compressed: bool = match self.header.stored_as {
            EManifestStorageFlags::Compressed => true,
            _ => false,
        };
        let final_data: Vec<u8>;
        let data_size_compressed: u32;
        if is_compressed {
            let compressed = match zlib_deflate(uncompressed.as_slice()) {
                Some(c) => c,
                None => {
                    return Err(ParseError::InvalidData);
                },
            };
            if compressed.len() > 0xFFFF_FFFFusize {
                return Err(ParseError::InvalidData);
            }
            data_size_compressed = compressed.len() as u32;
            final_data = compressed;
        } else {
            data_size_compressed = data_size_uncompressed;
            final_data = uncompressed;
        }
        let updated_header = FManifestHeader::new(
            self.header.magic(),
            0,
            data_size_uncompressed,
            data_size_compressed,
            calculated_hash,
            self.header.stored_as(),
            self.header.version(),
        );
        let mut final_writer = ByteWriter::new();
        updated_header.write_with_data(&mut final_writer, final_data.as_slice());
        let out = final_writer.into_bytes();
        proof {
            let payload = payload_bytes(self@);
            let c = final_data@;
            let h = HeaderModel {
                magic: self@.header.magic,
                header_size: 41,
                data_size_uncompressed: payload.len() as u32,
                data_size_compressed: c.len() as u32,
                sha_hash: sha1_of(payload),
                stored_as: self@.header.stored_as,
                version: self@.header.version,
            };
            assert(updated_header@ == (HeaderModel { header_size: 0, ..h }));
            assert((HeaderModel { header_size: 41, ..updated_header@ }) =~= h);
            assert(out@ == enc_header(h) + c);
            assert((self@.header.stored_as == 1) == is_compressed);
            assert({
                &&& out@ == enc_header(
                    HeaderModel {
                        magic: self@.header.magic,
                        header_size: 41,
                        data_size_uncompressed: payload.len() as u32,
                        data_size_compressed: c.len() as u32,
                        sha_hash: sha1_of(payload),
                        stored_as: self@.header.stored_as,
                        version: self@.header.version,
                    },
                ) + c
                &&& c.len() <= u32::MAX
                &&& (self@.header.stored_as == 1 ==> inflate_of(c) == Some(payload))
                &&& (self@.header.stored_as != 1 ==> c == payload)
            });
            assert(serialize_rel(self@, out@));
        }
        Ok(out)
    }
}

/// The four sections of a well-formed manifest's payload read back in
/// place.
#[verifier::rlimit(100)]
#[verifier::spinoff_prover]
proof fn lemma_sections_of_payload(payload: Seq<u8>, m: ManifestModel)
    requires
        wf_manifest(m),
        payload == payload_bytes(m),
    ensures
        sp_meta(payload, 0) == Ok::<(MetaModel, int), ParseError>((
            m.meta,
            enc_meta(m.meta).len() as int,
        )),
        sp_chunk_list(payload, enc_meta(m.meta).len() as int) == Ok::<
            (ChunkListModel, int),
            ParseError,
        >((m.chunk_list, enc_meta(m.meta).len() + enc_chunk_list(m.chunk_list).len() as int)),
        sp_file_list(payload, enc_meta(m.meta).len() + enc_chunk_list(m.chunk_list).len() as int) == Ok::<
            (FileListModel, int),
            ParseError,
        >((
            m.file_list,
            enc_meta(m.meta).len() + enc_chunk_list(m.chunk_list).len() + enc_file_list(
                m.file_list,
            ).len() as int,
        )),
        sp_custom_fields(
            payload,
            enc_meta(m.meta).len() + enc_chunk_list(m.chunk_list).len() + enc_file_list(
                m.file_list,
            ).len() as int,
        ) == Ok::<(CustomFieldsModel, int), ParseError>((
            m.custom_fields,
            payload.len() as int,
        )),
{
    let e_m = enc_meta(m.meta);
    let e_cl = enc_chunk_list(m.chunk_list);
    let e_fl = enc_file_list(m.file_list);
    let e_cf = enc_custom_fields(m.custom_fields);
    let t1 = e_m;
    let t2 = t1 + e_cl;
    let t3 = t2 + e_fl;
    assert(payload == t3 + e_cf);
    assert(has_at(payload, 0, payload)) by {
        assert(payload.subrange(0, payload.len() as int) =~= payload);
    }
    lemma_has_at_split(payload, 0, t3, e_cf);
    lemma_has_at_split(payload, 0, t2, e_fl);
    lemma_has_at_split(payload, 0, t1, e_cl);
    lemma_sp_meta_of_enc(payload, 0, m.meta);
    lemma_sp_chunk_list_of_enc(payload, t1.len() as int, m.chunk_list);
    lemma_sp_file_list_of_enc(payload, t2.len() as int, m.file_list);
    lemma_sp_custom_fields_of_enc(payload, t3.len() as int, m.custom_fields);
}

/// Serializing a well-formed manifest and parsing the result yields the
/// same semantic content: the same meta, chunk list, file list and custom
/// fields, and an envelope whose preserved fields match, with sizes and
/// SHA-1 freshly derived from the emitted payload.
#[verifier::rlimit(100)]
#[verifier::spinoff_prover]
pub proof fn lemma_parse_of_serialized(m: ManifestModel, out: Seq<u8>)
    requires
        wf_manifest(m),
        serialize_rel(m, out),
    ensures
        sp_manifest(out) matches Ok(m2) && m2.meta == m.meta && m2.chunk_list == m.chunk_list
            && m2.file_list == m.file_list && m2.custom_fields == m.custom_fields
            && m2.header.magic == m.header.magic && m2.header.stored_as == m.header.stored_as
            && m2.header.version == m.header.version && m2.header.sha_hash == sha1_of(
            payload_bytes(m),
        ) && m2.header.data_size_uncompressed == payload_bytes(m).len() && m2.data == out,
{
    let payload = payload_bytes(m);
    let c = choose|c: Seq<u8>|
        {
            &&& out == enc_header(
                HeaderModel {
                    magic: m.header.magic,
                    header_size: 41,
                    data_size_uncompressed: payload.len() as u32,
                    data_size_compressed: c.len() as u32,
                    sha_hash: sha1_of(payload),
                    stored_as: m.header.stored_as,
                    version: m.header.version,
                },
            ) + c
            &&& c.len() <= u32::MAX
            &&& (m.header.stored_as == 1 ==> inflate_of(c) == Some(payload))
            &&& (m.header.stored_as != 1 ==> c == payload)
        };
    let h = HeaderModel {
        magic: m.header.magic,
        header_size: 41,
        data_size_uncompressed: payload.len() as u32,
        data_size_compressed: c.len() as u32,
        sha_hash: sha1_of(payload),
        stored_as: m.header.stored_as,
        version: m.header.version,
    };
    lemma_sp_envelope_of_enc(out, h, c, payload);
    assert(sp_envelope(out) == Ok::<(HeaderModel, Seq<u8>), ParseError>((h, payload)));
    lemma_sections_of_payload(payload, m);
}

/// Parsing a byte stream and serializing the result yields a stream that
/// parses to the same semantic content, and whose emitted header carries
/// the SHA-1 of the emitted plain payload.
pub proof fn lemma_reserialize(b: Seq<u8>, m: ManifestModel, out: Seq<u8>)
    requires
        sp_manifest(b) == Ok::<ManifestModel, ParseError>(m),
        wf_manifest(m),
        serialize_rel(m, out),
    ensures
        sp_manifest(out) matches Ok(m2) && m2.meta == m.meta && m2.chunk_list == m.chunk_list
            && m2.file_list == m.file_list && m2.custom_fields == m.custom_fields
            && m2.header.magic == m.header.magic && m2.header.stored_as == m.header.stored_as
            && m2.header.version == m.header.version && m2.header.sha_hash == sha1_of(
            payload_bytes(m),
        ) && m2.header.data_size_uncompressed == payload_bytes(m).len(),
{
    lemma_parse_of_serialized(m, out);
}

/// What a successful parse guarantees of its result without further
/// premises: a legal envelope, version-gated option fields present exactly
/// when their data versions store them, and unique custom-field keys.
/// Together with `lemma_derived_sizes` this covers all of `wf_manifest`
/// except the writable-string and section-size bounds, which a string
/// read from UTF-16 may exceed after re-encoding.
pub proof fn lemma_parse_wf_basics(b: Seq<u8>, m: ManifestModel)
    requires
        sp_manifest(b) == Ok::<ManifestModel, ParseError>(m),
    ensures
        m.header.magic == MANIFEST_MAGIC,
        m.header.stored_as < 2,
        is_wire_level(m.header.version),
        is_wire_level(m.meta.feature_level),
        m.meta.build_id is Some <==> m.meta.data_version >= 1,
        m.meta.uninstall_action_path is Some <==> m.meta.data_version >= 2,
        m.meta.uninstall_action_args is Some <==> m.meta.data_version >= 2,
        unique_keys(m.custom_fields.fields),
        forall|i: int|
            0 <= i < m.file_list.entries.len() ==> ((#[trigger] m.file_list.entries[i]).mime_type
                is Some <==> m.file_list.version >= 1),
        forall|i: int|
            0 <= i < m.file_list.entries.len() ==> ((#[trigger] m.file_list.entries[i]).hash_md5
                is Some ==> m.file_list.version >= 1),
        forall|i: int|
            0 <= i < m.file_list.entries.len() ==> ((#[trigger] m.file_list.entries[i]).hash_sha256
                is Some <==> m.file_list.version >= 2),
{
}

/// Every element read by a run of `sp_many` satisfies whatever holds of
/// each single successful read.
pub proof fn lemma_sp_many_elements<T>(
    f: spec_fn(Seq<u8>, int) -> Result<(T, int), ParseError>,
    b: Seq<u8>,
    pos: int,
    n: nat,
    vs: Seq<T>,
    pe: int,
    p: spec_fn(T) -> bool,
)
    requires
        crate::wire::sp_many(f, b, pos, n) == Ok::<(Seq<T>, int), ParseError>((vs, pe)),
        forall|q: int| (#[trigger] f(b, q)) is Ok ==> p(f(b, q)->Ok_0.0),
    ensures
        forall|i: int| 0 <= i < vs.len() ==> p(#[trigger] vs[i]),
    decreases n,
{
    if n == 0 {
    } else {
        match f(b, pos) {
            Ok((v, p1)) => {
                match crate::wire::sp_many(f, b, p1, (n - 1) as nat) {
                    Ok((vs2, p2)) => {
                        lemma_sp_many_elements(f, b, p1, (n - 1) as nat, vs2, p2, p);
                        assert(vs == seq![v] + vs2);
                        assert(p(v));
                        assert(forall|i: int| 0 <= i < vs.len() ==> p(#[trigger] vs[i])) by {
                            assert(forall|i: int|
                                1 <= i < vs.len() ==> #[trigger] vs[i] == vs2[i - 1]);
                        }
                    },
                    Err(e) => {},
                }
            },
            Err(e) => {},
        }
    }
}

/// The derived sizes of every parsed file entry are consistent: the file
/// size is the sum of its part sizes, and each part's file offset is the
/// sum of the sizes before it.
pub proof fn lemma_derived_sizes(b: Seq<u8>, m: ManifestModel)
    requires
        sp_manifest(b) == Ok::<ManifestModel, ParseError>(m),
    ensures
        forall|i: int|
            0 <= i < m.file_list.entries.len() ==> {
                let e = #[trigger] m.file_list.entries[i];
                &&& e.file_size as int == part_sizes_total(e.chunk_parts)
                &&& offsets_consistent(e.chunk_parts)
            },
{
    let (hm, payload) = sp_envelope(b).unwrap();
    let (mm, p1) = sp_meta(payload, 0).unwrap();
    let (cm, p2) = sp_chunk_list(payload, p1).unwrap();
    match sp_file_list(payload, p2) {
        Ok((fm, p3)) => {
            lemma_file_list_derived(payload, p2, fm);
        },
        Err(e) => {
            assert(false);
        },
    }
}

/// The derived-size facts for any successfully read file list.
proof fn lemma_file_list_derived(b: Seq<u8>, pos: int, fm: FileListModel)
    requires
        sp_file_list(b, pos) matches Ok(pair) && pair.0 == fm,
    ensures
        forall|i: int|
            0 <= i < fm.entries.len() ==> {
                let e = #[trigger] fm.entries[i];
                &&& e.file_size as int == part_sizes_total(e.chunk_parts)
                &&& offsets_consistent(e.chunk_parts)
            },
{
    let good = |ps: Seq<ChunkPartModel>|
        part_sizes_total(ps) <= u32::MAX && offsets_consistent(ps);
    assert forall|q: int| (#[trigger] parts_entry_reader()(b, q)) is Ok implies good(
        parts_entry_reader()(b, q)->Ok_0.0,
    ) by {
        let v = parts_entry_reader()(b, q)->Ok_0.0;
        match crate::wire::sp_u32(b, q) {
            Ok((count, q1)) => {
                match crate::wire::sp_many(
                    crate::manifest::chunk_part::part_reader(),
                    b,
                    q1,
                    count as nat,
                ) {
                    Ok((raw, q2)) => {
                        assert(v == with_offsets(raw));
                        assert(forall|j: int|
                            0 <= j < raw.len() ==> (#[trigger] raw[j]).size == with_offsets(
                                raw,
                            )[j].size);
                        lemma_prefix_size_same_sizes(raw, with_offsets(raw), raw.len() as int);
                        assert forall|j: int| 0 <= j < v.len() implies (#[trigger] v[j]).file_offset
                            == crate::manifest::file_manifest::prefix_size(v, j) by {
                            lemma_prefix_size_same_sizes(raw, with_offsets(raw), j);
                        }
                    },
                    Err(e) => {},
                }
            },
            Err(e) => {},
        }
    }
    match crate::wire::sp_u32(b, pos) {
        Ok((size, q1)) => match crate::wire::sp_u8(b, q1) {
            Ok((version, q2)) => match crate::wire::sp_u32(b, q2) {
                Ok((count, q3)) => match crate::wire::sp_many(
                    crate::wire::str_reader(),
                    b,
                    q3,
                    count as nat,
                ) {
                    Ok((fnames, q4)) => match crate::wire::sp_many(
                        crate::wire::str_reader(),
                        b,
                        q4,
                        count as nat,
                    ) {
                        Ok((syms, q5)) => match crate::wire::sp_many(
                            crate::shared::sha_reader(),
                            b,
                            q5,
                            count as nat,
                        ) {
                            Ok((hashes, q6)) => match crate::wire::sp_many(
                                crate::wire::u8_reader(),
                                b,
                                q6,
                                count as nat,
                            ) {
                                Ok((flagss, q7)) => match crate::wire::sp_many(
                                    crate::manifest::file_manifest::tags_entry_reader(),
                                    b,
                                    q7,
                                    count as nat,
                                ) {
                                    Ok((tagss, q8)) => match crate::wire::sp_many(
                                        parts_entry_reader(),
                                        b,
                                        q8,
                                        count as nat,
                                    ) {
                                        Ok((partss, q9)) => {
                                            lemma_sp_many_elements(
                                                parts_entry_reader(),
                                                b,
                                                q8,
                                                count as nat,
                                                partss,
                                                q9,
                                                good,
                                            );
                                            crate::wire::lemma_sp_many_len(
                                                parts_entry_reader(),
                                                b,
                                                q8,
                                                count as nat,
                                                partss,
                                                q9,
                                            );
                                            assert forall|i: int|
                                                0 <= i < fm.entries.len() implies {
                                                let e = #[trigger] fm.entries[i];
                                                &&& e.file_size as int == part_sizes_total(
                                                    e.chunk_parts,
                                                )
                                                &&& offsets_consistent(e.chunk_parts)
                                            } by {
                                                assert(fm.entries[i].chunk_parts == partss[i]);
                                                assert(good(partss[i]));
                                                crate::manifest::file_manifest::lemma_prefix_size_bounds(
                                                    partss[i],
                                                    0,
                                                );
                                                assert(0 <= part_sizes_total(partss[i])
                                                    <= u32::MAX);
                                                assert(fm.entries[i].file_size == part_sizes_total(
                                                    partss[i],
                                                ) as u32);
                                            }
                                        },
                                        Err(e) => {},
                                    },
                                    Err(e) => {},
                                },
                                Err(e) => {},
                            },
                            Err(e) => {},
                        },
                        Err(e) => {},
                    },
                    Err(e) => {},
                },
                Err(e) => {},
            },
            Err(e) => {},
        },
        Err(e) => {},
    }
}

} // verus!
