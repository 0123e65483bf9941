//! The chunk list section: a size-prefixed, column-major list of chunk
//! records.
use vstd::prelude::*;

use crate::manifest::chunk_info::{
    comp_size_col, group_col, guid_col, hash_col, sha_col, unc_size_col, ChunkInfoModel,
    FChunkInfo,
};
use crate::reader::ByteReader;
use crate::shared::{enc_guid, guid_reader, lemma_fsha_len, sha_reader, EFeatureLevel, FGuid};
use crate::wire::{
    cat, enc_u32, enc_u8, has_at, i64_reader, lemma_cat_push, lemma_has_at_split,
    lemma_sp_many_len, lemma_sp_many_of_cat, lemma_sp_u32_of_enc, lemma_sp_u8_of_enc, sp_many,
    sp_u32, sp_u8, u32_reader, u64_reader, u8_reader,
};
use crate::writer::ByteWriter;
use crate::{ParseError, ParseResult};

verus! {

/// Ghost image of the chunk list: its stored data version and the chunk
/// records in order.
#[verifier::ext_equal]
pub ghost struct ChunkListModel {
    pub version: u8,
    pub chunks: Seq<ChunkInfoModel>,
}

/// Rebuilding chunk records from the six columns.
pub open spec fn zip_chunks(
    guids: Seq<FGuid>,
    hashes: Seq<u64>,
    shas: Seq<Seq<u8>>,
    groups: Seq<u8>,
    us: Seq<u32>,
    cs: Seq<i64>,
    n: nat,
) -> Seq<ChunkInfoModel> {
    Seq::new(
        n,
        |i: int|
            ChunkInfoModel {
                guid: guids[i],
                hash: hashes[i],
                sha_hash: shas[i],
                group_num: groups[i],
                uncompressed_size: us[i],
                compressed_size: cs[i],
            },
    )
}

/// The body of the chunk list section (everything after the size field):
/// version, count, then the six columns, each contiguous.
pub open spec fn chunk_list_body(m: ChunkListModel) -> Seq<u8> {
    enc_u8(m.version) + enc_u32(m.chunks.len() as u32) + cat(
        crate::shared::guid_encoder(),
        guid_col(m.chunks),
    ) + cat(crate::wire::u64_encoder(), hash_col(m.chunks)) + cat(
        crate::shared::sha_encoder(),
        sha_col(m.chunks),
    ) + cat(crate::wire::u8_encoder(), group_col(m.chunks)) + cat(
        crate::wire::u32_encoder(),
        unc_size_col(m.chunks),
    ) + cat(crate::wire::i64_encoder(), comp_size_col(m.chunks))
}

/// The whole section: a `u32` size that counts itself, then the body.
pub open spec fn enc_chunk_list(m: ChunkListModel) -> Seq<u8> {
    enc_u32((chunk_list_body(m).len() + 4) as u32) + chunk_list_body(m)
}

/// A chunk list the writer can emit: the count fits the prefix, the size
/// field fits, and every SHA-1 is 20 bytes.
pub open spec fn wf_chunk_list(m: ChunkListModel) -> bool {
    &&& m.chunks.len() <= u32::MAX
    &&& chunk_list_body(m).len() + 4 <= u32::MAX
    &&& forall|i: int| 0 <= i < m.chunks.len() ==> (#[trigger] m.chunks[i]).sha_hash.len() == 20
}

/// Reading the chunk list section; the cursor must land exactly at
/// `start + size`.
pub open spec fn sp_chunk_list(b: Seq<u8>, pos: int) -> Result<(ChunkListModel, int), ParseError> {
    match sp_u32(b, pos) {
        Ok((size, p1)) => match sp_u8(b, p1) {
            Ok((version, p2)) => match sp_u32(b, p2) {
                Ok((count, p3)) => match sp_many(guid_reader(), b, p3, count as nat) {
                    Ok((guids, p4)) => match sp_many(u64_reader(), b, p4, count as nat) {
                        Ok((hashes, p5)) => match sp_many(sha_reader(), b, p5, count as nat) {
                            Ok((shas, p6)) => match sp_many(u8_reader(), b, p6, count as nat) {
                                Ok((groups, p7)) => match sp_many(
                                    u32_reader(),
                                    b,
                                    p7,
                                    count as nat,
                                ) {
                                    Ok((us, p8)) => match sp_many(i64_reader(), b, p8, count as nat) {
                                        Ok((cs, p9)) => if p9 - pos == size {
                                            Ok(
                                                (
                                                    ChunkListModel {
                                                        version,
                                                        chunks: zip_chunks(
                                                            guids,
                                                            hashes,
                                                            shas,
                                                            groups,
                                                            us,
                                                            cs,
                                                            count as nat,
                                                        ),
                                                    },
                                                    p9,
                                                ),
                                            )
                                        } else {
                                            Err(ParseError::InvalidData)
                                        },
                                        Err(e) => Err(e),
                                    },
                                    Err(e) => Err(e),
                                },
                                Err(e) => Err(e),
                            },
                            Err(e) => Err(e),
                        },
                        Err(e) => Err(e),
                    },
                    Err(e) => Err(e),
                },
                Err(e) => Err(e),
            },
            Err(e) => Err(e),
        },
        Err(e) => Err(e),
    }
}

/// The chunk list with the manifest feature level it was parsed under.
#[derive(Debug, Clone)]
pub struct FChunkList {
    pub _manifest_version: EFeatureLevel,
    pub _version: u8,
    pub chunks: Vec<FChunkInfo>,
}

impl View for FChunkList {
    type V = ChunkListModel;

    open spec fn view(&self) -> ChunkListModel {
        ChunkListModel { version: self._version, chunks: self.chunks.deep_view() }
    }
}

impl FChunkList {
    /// Builds a chunk list from its parts.
    pub fn new(manifest_version: EFeatureLevel, version: u8, chunks: Vec<FChunkInfo>) -> (r:
        FChunkList)
        ensures
            r@ == (ChunkListModel { version, chunks: chunks.deep_view() }),
    {
        FChunkList { _manifest_version: manifest_version, _version: version, chunks }
    }

    /// Parses the section.  `manifest_version` is the enclosing manifest's
    /// feature level, kept for reference; it does not shape the wire format.
    pub fn parse(reader: &mut ByteReader, manifest_version: EFeatureLevel) -> (r: ParseResult<
        FChunkList,
    >)
        requires
            old(reader).wf(),
        ensures
            final(reader).wf(),
            final(reader)@.data == old(reader)@.data,
            match sp_chunk_list(old(reader)@.data, old(reader)@.pos) {
                Ok((m, p)) => r matches Ok(list) && list@ == m && final(reader)@.pos == p,
                Err(e) => r matches Err(e2) && e2 == e,
            },
    {
        let ghost b = reader@.data;
        let ghost pos0 = reader@.pos;
        let start = reader.tell();
        let size = match reader.read_u32() {
            Ok(v) => v,
            Err(e) => {
                return Err(e);
            },
        };
        let version = match reader.read_u8() {
            Ok(v) => v,
            Err(e) => {
                return Err(e);
            },
        };
        let count = match reader.read_u32() {
            Ok(v) => v,
            Err(e) => {
                return Err(e);
            },
        };
        let ghost p3 = reader@.pos;
        let guids = match reader.read_guid_column(count) {
            Ok(v) => v,
            Err(e) => {
                return Err(e);
            },
        };
        let ghost p4 = reader@.pos;
        let hashes = match reader.read_u64_column(count) {
            Ok(v) => v,
            Err(e) => {
                return Err(e);
            },
        };
        let ghost p5 = reader@.pos;
        let shas = match reader.read_sha_column(count) {
            Ok(v) => v,
            Err(e) => {
                return Err(e);
            },
        };
        let ghost p6 = reader@.pos;
        let groups = match reader.read_u8_column(count) {
            Ok(v) => v,
            Err(e) => {
                return Err(e);
            },
        };
        let ghost p7 = reader@.pos;
        let us = match reader.read_u32_column(count) {
            Ok(v) => v,
            Err(e) => {
                return Err(e);
            },
        };
        let ghost p8 = reader@.pos;
        let cs = match reader.read_i64_column(count) {
            Ok(v) => v,
            Err(e) => {
                return Err(e);
            },
        };
        let ghost p9 = reader@.pos;
        let end = reader.tell();
        if end < start {
            return Err(ParseError::InvalidData);
        }
        let consumed = end - start;
        if consumed != size as usize {
            return Err(ParseError::InvalidData);
        }
        proof {
            lemma_sp_many_len(guid_reader(), b, p3, count as nat, guids@, p4);
            lemma_sp_many_len(u64_reader(), b, p4, count as nat, hashes@, p5);
            lemma_sp_many_len(sha_reader(), b, p5, count as nat, shas.deep_view(), p6);
            lemma_sp_many_len(u8_reader(), b, p6, count as nat, groups@, p7);
            lemma_sp_many_len(u32_reader(), b, p7, count as nat, us@, p8);
            lemma_sp_many_len(i64_reader(), b, p8, count as nat, cs@, p9);
        }
        let mut chunks: Vec<FChunkInfo> = Vec::new();
        let ghost m = zip_chunks(
            guids@,
            hashes@,
            shas.deep_view(),
            groups@,
            us@,
            cs@,
            count as nat,
        );
        let mut i: usize = 0;
        while i < count as usize
            invariant
                i <= count,
                i == chunks.len(),
                guids@.len() == count,
                hashes@.len() == count,
                shas@.len() == count,
                groups@.len() == count,
                us@.len() == count,
                cs@.len() == count,
                m == zip_chunks(
                    guids@,
                    hashes@,
                    shas.deep_view(),
                    groups@,
                    us@,
                    cs@,
                    count as nat,
                ),
                m.len() == count,
                forall|j: int| 0 <= j < i ==> chunks.deep_view()[j] == m[j],
            decreases count - i,
        {
            chunks.push(
                FChunkInfo {
                    guid: guids[i],
                    hash: hashes[i],
                    sha_hash: shas[i],
                    group_num: groups[i],
                    uncompressed_size: us[i],
                    compressed_size: cs[i],
                },
            );
            i = i + 1;
        }
        proof {
            assert(chunks.deep_view() =~= m);
        }
        Ok(FChunkList { _manifest_version: manifest_version, _version: version, chunks })
    }

    /// Serializes the section: a recomputed size field, then the body.
    /// Fails exactly when the list cannot be framed: too many chunks for the
    /// count prefix, or a body too large for the size field.
    pub fn write(&self, writer: &mut ByteWriter) -> (r: ParseResult<()>)
        ensures
            r is Ok ==> wf_chunk_list(self@) && final(writer)@ == old(writer)@ + enc_chunk_list(
                self@,
            ),
            r matches Err(e) ==> !wf_chunk_list(self@) && e == ParseError::InvalidData
                && final(writer)@ == old(writer)@,
    {
        broadcast use lemma_fsha_len;

        let ghost cm = self.chunks.deep_view();
        let mut tw = ByteWriter::new();
        tw.write_u8(self._version);
        if self.chunks.len() > 0xFFFF_FFFFusize {
            proof {
                assert(!wf_chunk_list(self@));
            }
            return Err(ParseError::InvalidData);
        }
        tw.write_u32(self.chunks.len() as u32);
        let ghost prefix = crate::wire::enc_u8(self._version) + enc_u32(
            self.chunks@.len() as u32,
        );
        proof {
            assert(tw@ =~= prefix);
        }
        let ghost base_0 = tw@;
        let mut i: usize = 0;
        while i < self.chunks.len()
            invariant
                i <= self.chunks@.len(),
                cm == self.chunks.deep_view(),
                tw@ == base_0 + cat(crate::shared::guid_encoder(), guid_col(cm).take(i as int)),
            decreases self.chunks@.len() - i,
        {
            let ghost before = guid_col(cm).take(i as int);
            self.chunks[i].guid.write(&mut tw);
            proof {
                assert(crate::shared::guid_encoder()(guid_col(cm)[i as int]) == enc_guid(self.chunks@[i as int]@.guid));
                lemma_cat_push(crate::shared::guid_encoder(), before, guid_col(cm)[i as int]);
                assert(before.push(guid_col(cm)[i as int]) =~= guid_col(cm).take(i + 1));
                assert(tw@ =~= base_0 + cat(crate::shared::guid_encoder(), guid_col(cm).take(i + 1)));
            }
            i = i + 1;
        }
        proof {
            assert(guid_col(cm).take(cm.len() as int) =~= guid_col(cm));
        }

        let ghost base_1 = tw@;
        let mut i: usize = 0;
        while i < self.chunks.len()
            invariant
                i <= self.chunks@.len(),
                cm == self.chunks.deep_view(),
                tw@ == base_1 + cat(crate::wire::u64_encoder(), hash_col(cm).take(i as int)),
            decreases self.chunks@.len() - i,
        {
            let ghost before = hash_col(cm).take(i as int);
            tw.write_u64(self.chunks[i].hash);
            proof {
                assert(crate::wire::u64_encoder()(hash_col(cm)[i as int]) == crate::wire::enc_u64(self.chunks@[i as int]@.hash));
                lemma_cat_push(crate::wire::u64_encoder(), before, hash_col(cm)[i as int]);
                assert(before.push(hash_col(cm)[i as int]) =~= hash_col(cm).take(i + 1));
                assert(tw@ =~= base_1 + cat(crate::wire::u64_encoder(), hash_col(cm).take(i + 1)));
            }
            i = i + 1;
        }
        proof {
            assert(hash_col(cm).take(cm.len() as int) =~= hash_col(cm));
        }

        let ghost base_2 = tw@;
        let mut i: usize = 0;
        while i < self.chunks.len()
            invariant
                i <= self.chunks@.len(),
                cm == self.chunks.deep_view(),
                tw@ == base_2 + cat(crate::shared::sha_encoder(), sha_col(cm).take(i as int)),
            decreases self.chunks@.len() - i,
        {
            let ghost before = sha_col(cm).take(i as int);
            self.chunks[i].sha_hash.write(&mut tw);
            proof {
                assert(crate::shared::sha_encoder()(sha_col(cm)[i as int]) == self.chunks@[i as int]@.sha_hash);
                lemma_cat_push(crate::shared::sha_encoder(), before, sha_col(cm)[i as int]);
                assert(before.push(sha_col(cm)[i as int]) =~= sha_col(cm).take(i + 1));
                assert(tw@ =~= base_2 + cat(crate::shared::sha_encoder(), sha_col(cm).take(i + 1)));
            }
            i = i + 1;
        }
        proof {
            assert(sha_col(cm).take(cm.len() as int) =~= sha_col(cm));
        }

        let ghost base_3 = tw@;
        let mut i: usize = 0;
        while i < self.chunks.len()
            invariant
                i <= self.chunks@.len(),
                cm == self.chunks.deep_view(),
                tw@ == base_3 + cat(crate::wire::u8_encoder(), group_col(cm).take(i as int)),
            decreases self.chunks@.len() - i,
        {
            let ghost before = group_col(cm).take(i as int);
            tw.write_u8(self.chunks[i].group_num);
            proof {
                assert(crate::wire::u8_encoder()(group_col(cm)[i as int]) == crate::wire::enc_u8(self.chunks@[i as int]@.group_num));
                lemma_cat_push(crate::wire::u8_encoder(), before, group_col(cm)[i as int]);
                assert(before.push(group_col(cm)[i as int]) =~= group_col(cm).take(i + 1));
                assert(tw@ =~= base_3 + cat(crate::wire::u8_encoder(), group_col(cm).take(i + 1)));
            }
            i = i + 1;
        }
        proof {
            assert(group_col(cm).take(cm.len() as int) =~= group_col(cm));
        }

        let ghost base_4 = tw@;
        let mut i: usize = 0;
        while i < self.chunks.len()
            invariant
                i <= self.chunks@.len(),
                cm == self.chunks.deep_view(),
                tw@ == base_4 + cat(crate::wire::u32_encoder(), unc_size_col(cm).take(i as int)),
            decreases self.chunks@.len() - i,
        {
            let ghost before = unc_size_col(cm).take(i as int);
            tw.write_u32(self.chunks[i].uncompressed_size);
            proof {
                assert(crate::wire::u32_encoder()(unc_size_col(cm)[i as int]) == crate::wire::enc_u32(self.chunks@[i as int]@.uncompressed_size));
                lemma_cat_push(crate::wire::u32_encoder(), before, unc_size_col(cm)[i as int]);
                assert(before.push(unc_size_col(cm)[i as int]) =~= unc_size_col(cm).take(i + 1));
                assert(tw@ =~= base_4 + cat(crate::wire::u32_encoder(), unc_size_col(cm).take(i + 1)));
            }
            i = i + 1;
        }
        proof {
            assert(unc_size_col(cm).take(cm.len() as int) =~= unc_size_col(cm));
        }

        let ghost base_5 = tw@;
        let mut i: usize = 0;
        while i < self.chunks.len()
            invariant
                i <= self.chunks@.len(),
                cm == self.chunks.deep_view(),
                tw@ == base_5 + cat(crate::wire::i64_encoder(), comp_size_col(cm).take(i as int)),
            decreases self.chunks@.len() - i,
        {
            let ghost before = comp_size_col(cm).take(i as int);
            tw.write_i64(self.chunks[i].compressed_size);
            proof {
                assert(crate::wire::i64_encoder()(comp_size_col(cm)[i as int]) == crate::wire::enc_i64(self.chunks@[i as int]@.compressed_size));
                lemma_cat_push(crate::wire::i64_encoder(), before, comp_size_col(cm)[i as int]);
                assert(before.push(comp_size_col(cm)[i as int]) =~= comp_size_col(cm).take(i + 1));
                assert(tw@ =~= base_5 + cat(crate::wire::i64_encoder(), comp_size_col(cm).take(i + 1)));
            }
            i = i + 1;
        }
        proof {
            assert(comp_size_col(cm).take(cm.len() as int) =~= comp_size_col(cm));
        }

        proof {
            assert(tw@ =~= chunk_list_body(self@));
        }
        if tw.tell() > 0xFFFF_FFFBusize {
            proof {
                assert(chunk_list_body(self@).len() + 4 > u32::MAX);
                assert(!wf_chunk_list(self@));
            }
            return Err(ParseError::InvalidData);
        }
        writer.write_u32(tw.tell() as u32 + 4);
        writer.write_bytes(tw.as_bytes());
        proof {
            assert(forall|i: int|
                0 <= i < cm.len() ==> (#[trigger] cm[i]).sha_hash.len() == 20) by {
                assert forall|i: int| 0 <= i < cm.len() implies (#[trigger] cm[i]).sha_hash.len()
                    == 20 by {
                    assert(cm[i] == self.chunks@[i]@);
                }
            }
            assert(wf_chunk_list(self@));
            assert(writer@ =~= old(writer)@ + enc_chunk_list(self@));
        }
        Ok(())
    }

    /// The first chunk carrying the given GUID, if any.
    pub fn find_by_guid(&self, guid: &FGuid) -> (r: Option<&FChunkInfo>)
        ensures
            match r {
                Some(c) => exists|i: int|
                    0 <= i < self@.chunks.len() && c@ == self@.chunks[i] && c@.guid == *guid && (
                    forall|j: int| 0 <= j < i ==> (#[trigger] self@.chunks[j]).guid != *guid),
                None => forall|i: int|
                    0 <= i < self@.chunks.len() ==> (#[trigger] self@.chunks[i]).guid != *guid,
            },
    {
        let mut i: usize = 0;
        while i < self.chunks.len()
            invariant
                i <= self.chunks@.len(),
                forall|j: int| 0 <= j < i ==> (#[trigger] self.chunks.deep_view()[j]).guid != *guid,
            decreases self.chunks@.len() - i,
        {
            if self.chunks[i].guid == *guid {
                proof {
                    let wi = i as int;
                    assert(0 <= wi < self@.chunks.len());
                    assert(self.chunks@[wi]@ == self@.chunks[wi]);
                    assert(self@.chunks[wi].guid == *guid);
                    assert(forall|j: int| 0 <= j < wi ==> (#[trigger] self@.chunks[j]).guid != *guid);
                }
                return Some(&self.chunks[i]);
            }
            i = i + 1;
        }
        None
    }

    /// The chunk records in order.
    pub fn chunks(&self) -> (r: &Vec<FChunkInfo>)
        ensures
            r.deep_view() == self@.chunks,
    {
        &self.chunks
    }
}

/// A well-formed chunk list's encoding reads back as itself.
pub proof fn lemma_sp_chunk_list_of_enc(b: Seq<u8>, pos: int, m: ChunkListModel)
    requires
        wf_chunk_list(m),
        has_at(b, pos, enc_chunk_list(m)),
    ensures
        sp_chunk_list(b, pos) == Ok::<(ChunkListModel, int), ParseError>((
            m,
            pos + enc_chunk_list(m).len(),
        )),
{
    vstd::bytes::lemma_auto_spec_u32_to_from_le_bytes();
    let body = chunk_list_body(m);
    let size = (body.len() + 4) as u32;
    let n = m.chunks.len();
    assert(enc_chunk_list(m) =~= enc_u32(size) + body);
    lemma_has_at_split(b, pos, enc_u32(size), body);
    lemma_sp_u32_of_enc(b, pos, size);
    let c_guid = cat(crate::shared::guid_encoder(), guid_col(m.chunks));
    let c_hash = cat(crate::wire::u64_encoder(), hash_col(m.chunks));
    let c_sha = cat(crate::shared::sha_encoder(), sha_col(m.chunks));
    let c_group = cat(crate::wire::u8_encoder(), group_col(m.chunks));
    let c_unc = cat(crate::wire::u32_encoder(), unc_size_col(m.chunks));
    let c_comp = cat(crate::wire::i64_encoder(), comp_size_col(m.chunks));
    let p1 = pos + 4;
    assert(body =~= enc_u8(m.version) + (enc_u32(n as u32) + (c_guid + (c_hash + (c_sha + (c_group
        + (c_unc + c_comp)))))));
    lemma_has_at_split(
        b,
        p1,
        enc_u8(m.version),
        enc_u32(n as u32) + (c_guid + (c_hash + (c_sha + (c_group + (c_unc + c_comp))))),
    );
    lemma_sp_u8_of_enc(b, p1, m.version);
    let p2 = p1 + 1;
    lemma_has_at_split(
        b,
        p2,
        enc_u32(n as u32),
        c_guid + (c_hash + (c_sha + (c_group + (c_unc + c_comp)))),
    );
    lemma_sp_u32_of_enc(b, p2, n as u32);
    let p3 = p2 + 4;
    lemma_has_at_split(b, p3, c_guid, c_hash + (c_sha + (c_group + (c_unc + c_comp))));
    let p4 = p3 + c_guid.len();
    lemma_has_at_split(b, p4, c_hash, c_sha + (c_group + (c_unc + c_comp)));
    let p5 = p4 + c_hash.len();
    lemma_has_at_split(b, p5, c_sha, c_group + (c_unc + c_comp));
    let p6 = p5 + c_sha.len();
    lemma_has_at_split(b, p6, c_group, c_unc + c_comp);
    let p7 = p6 + c_group.len();
    lemma_has_at_split(b, p7, c_unc, c_comp);
    let p8 = p7 + c_unc.len();
    let p9 = p8 + c_comp.len();
    assert forall|x: FGuid, q: int|
        #![trigger guid_reader()(b, q), crate::shared::guid_encoder()(x)]
        true && 0 <= q && q + crate::shared::guid_encoder()(x).len() <= b.len() && b.subrange(
            q,
            q + crate::shared::guid_encoder()(x).len() as int,
        ) == crate::shared::guid_encoder()(x) implies guid_reader()(b, q) == Ok::<
        (FGuid, int),
        ParseError,
    >((x, q + crate::shared::guid_encoder()(x).len() as int)) by {
        crate::shared::lemma_sp_guid_of_enc(b, q, x);
    }
    lemma_sp_many_of_cat(
        guid_reader(),
        crate::shared::guid_encoder(),
        |x: FGuid| true,
        b,
        p3,
        guid_col(m.chunks),
    );
    assert forall|x: u64, q: int|
        #![trigger u64_reader()(b, q), crate::wire::u64_encoder()(x)]
        true && 0 <= q && q + crate::wire::u64_encoder()(x).len() <= b.len() && b.subrange(
            q,
            q + crate::wire::u64_encoder()(x).len() as int,
        ) == crate::wire::u64_encoder()(x) implies u64_reader()(b, q) == Ok::<
        (u64, int),
        ParseError,
    >((x, q + crate::wire::u64_encoder()(x).len() as int)) by {
        vstd::bytes::lemma_auto_spec_u64_to_from_le_bytes();
        crate::wire::lemma_sp_u64_of_enc(b, q, x);
    }
    lemma_sp_many_of_cat(
        u64_reader(),
        crate::wire::u64_encoder(),
        |x: u64| true,
        b,
        p4,
        hash_col(m.chunks),
    );
    assert forall|x: Seq<u8>, q: int|
        #![trigger sha_reader()(b, q), crate::shared::sha_encoder()(x)]
        x.len() == 20 && 0 <= q && q + crate::shared::sha_encoder()(x).len() <= b.len()
            && b.subrange(q, q + crate::shared::sha_encoder()(x).len() as int)
            == crate::shared::sha_encoder()(x) implies sha_reader()(b, q) == Ok::<
        (Seq<u8>, int),
        ParseError,
    >((x, q + crate::shared::sha_encoder()(x).len() as int)) by {
        crate::wire::lemma_sp_bytes_of_enc(b, q, x);
    }
    assert(forall|i: int|
        0 <= i < sha_col(m.chunks).len() ==> (#[trigger] sha_col(m.chunks)[i]).len() == 20);
    lemma_sp_many_of_cat(
        sha_reader(),
        crate::shared::sha_encoder(),
        |x: Seq<u8>| x.len() == 20,
        b,
        p5,
        sha_col(m.chunks),
    );
    assert forall|x: u8, q: int|
        #![trigger u8_reader()(b, q), crate::wire::u8_encoder()(x)]
        true && 0 <= q && q + crate::wire::u8_encoder()(x).len() <= b.len() && b.subrange(
            q,
            q + crate::wire::u8_encoder()(x).len() as int,
        ) == crate::wire::u8_encoder()(x) implies u8_reader()(b, q) == Ok::<
        (u8, int),
        ParseError,
    >((x, q + crate::wire::u8_encoder()(x).len() as int)) by {
        crate::wire::lemma_sp_u8_of_enc(b, q, x);
    }
    lemma_sp_many_of_cat(
        u8_reader(),
        crate::wire::u8_encoder(),
        |x: u8| true,
        b,
        p6,
        group_col(m.chunks),
    );
    assert forall|x: u32, q: int|
        #![trigger u32_reader()(b, q), crate::wire::u32_encoder()(x)]
        true && 0 <= q && q + crate::wire::u32_encoder()(x).len() <= b.len() && b.subrange(
            q,
            q + crate::wire::u32_encoder()(x).len() as int,
        ) == crate::wire::u32_encoder()(x) implies u32_reader()(b, q) == Ok::<
        (u32, int),
        ParseError,
    >((x, q + crate::wire::u32_encoder()(x).len() as int)) by {
        crate::wire::lemma_sp_u32_of_enc(b, q, x);
    }
    lemma_sp_many_of_cat(
        u32_reader(),
        crate::wire::u32_encoder(),
        |x: u32| true,
        b,
        p7,
        unc_size_col(m.chunks),
    );
    assert forall|x: i64, q: int|
        #![trigger i64_reader()(b, q), crate::wire::i64_encoder()(x)]
        true && 0 <= q && q + crate::wire::i64_encoder()(x).len() <= b.len() && b.subrange(
            q,
            q + crate::wire::i64_encoder()(x).len() as int,
        ) == crate::wire::i64_encoder()(x) implies i64_reader()(b, q) == Ok::<
        (i64, int),
        ParseError,
    >((x, q + crate::wire::i64_encoder()(x).len() as int)) by {
        vstd::bytes::lemma_auto_spec_u64_to_from_le_bytes();
        crate::wire::lemma_sp_i64_of_enc(b, q, x);
    }
    lemma_sp_many_of_cat(
        i64_reader(),
        crate::wire::i64_encoder(),
        |x: i64| true,
        b,
        p8,
        comp_size_col(m.chunks),
    );
    assert(zip_chunks(
        guid_col(m.chunks),
        hash_col(m.chunks),
        sha_col(m.chunks),
        group_col(m.chunks),
        unc_size_col(m.chunks),
        comp_size_col(m.chunks),
        n,
    ) =~= m.chunks);
    assert(p9 - pos == size);
}

} // verus!
