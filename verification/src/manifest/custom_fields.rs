//! The custom fields section: an unordered string-to-string mapping with
//! unique keys, stored as counted key/value pairs.
use vstd::prelude::*;

use crate::reader::ByteReader;
use crate::wire::{
    cat, enc_string, enc_u32, enc_u8, has_at, lemma_cat_push, lemma_has_at_split,
    lemma_sp_many_of_cat, lemma_sp_string_of_enc, lemma_sp_u32_of_enc, lemma_sp_u8_of_enc,
    sp_many, sp_string, sp_u32, sp_u8, wf_str,
};
use crate::writer::ByteWriter;
use crate::{ParseError, ParseResult};

verus! {

/// Ghost image of the custom fields: the stored data version and the
/// key/value pairs in wire order.
#[verifier::ext_equal]
pub ghost struct CustomFieldsModel {
    pub version: u8,
    pub fields: Seq<(Seq<char>, Seq<char>)>,
}

/// No two pairs share a key.
pub open spec fn unique_keys(s: Seq<(Seq<char>, Seq<char>)>) -> bool {
    forall|i: int, j: int| 0 <= i < j < s.len() ==> (#[trigger] s[i]).0 != (#[trigger] s[j]).0
}

/// Reading one key/value pair.
pub open spec fn sp_pair(b: Seq<u8>, pos: int) -> Result<
    ((Seq<char>, Seq<char>), int),
    ParseError,
> {
    match sp_string(b, pos) {
        Ok((k, p1)) => match sp_string(b, p1) {
            Ok((v, p2)) => Ok(((k, v), p2)),
            Err(e) => Err(e),
        },
        Err(e) => Err(e),
    }
}

/// The pair reader and encoder as named closures.
pub open spec fn pair_reader() -> spec_fn(Seq<u8>, int) -> Result<
    ((Seq<char>, Seq<char>), int),
    ParseError,
> {
    |b: Seq<u8>, pos: int| sp_pair(b, pos)
}

pub open spec fn pair_encoder() -> spec_fn((Seq<char>, Seq<char>)) -> Seq<u8> {
    |p: (Seq<char>, Seq<char>)| enc_string(p.0) + enc_string(p.1)
}

/// Both strings of a pair are writable.
pub open spec fn wf_pair(p: (Seq<char>, Seq<char>)) -> bool {
    wf_str(p.0) && wf_str(p.1)
}

/// The body of the section: version, count, then the pairs.
pub open spec fn custom_fields_body(m: CustomFieldsModel) -> Seq<u8> {
    enc_u8(m.version) + enc_u32(m.fields.len() as u32) + cat(pair_encoder(), m.fields)
}

/// The whole section: a `u32` size that counts itself, then the body.
pub open spec fn enc_custom_fields(m: CustomFieldsModel) -> Seq<u8> {
    enc_u32((custom_fields_body(m).len() + 4) as u32) + custom_fields_body(m)
}

/// Custom fields the writer can emit: the count fits its prefix, the size
/// field fits, and every string is writable.
pub open spec fn wf_custom_fields(m: CustomFieldsModel) -> bool {
    &&& m.fields.len() <= u32::MAX
    &&& custom_fields_body(m).len() + 4 <= u32::MAX
    &&& forall|i: int| 0 <= i < m.fields.len() ==> wf_pair(#[trigger] m.fields[i])
}

/// Reading the custom fields section: size, version, count, pairs; the
/// cursor must land at `start + size`, and keys must be unique.
pub open spec fn sp_custom_fields(b: Seq<u8>, pos: int) -> Result<
    (CustomFieldsModel, int),
    ParseError,
> {
    match sp_u32(b, pos) {
        Ok((size, p1)) => match sp_u8(b, p1) {
            Ok((version, p2)) => match sp_u32(b, p2) {
                Ok((count, p3)) => match sp_many(pair_reader(), b, p3, count as nat) {
                    Ok((pairs, p4)) => if p4 - pos == size {
                        if unique_keys(pairs) {
                            Ok((CustomFieldsModel { version, fields: pairs }, p4))
                        } else {
                            Err(ParseError::InvalidData)
                        }
                    } else {
                        Err(ParseError::SizeMismatch)
                    },
                    Err(e) => Err(e),
                },
                Err(e) => Err(e),
            },
            Err(e) => Err(e),
        },
        Err(e) => Err(e),
    }
}

/// The custom fields of a manifest: a mapping from string to string whose
/// iteration order is the wire order.
#[derive(Debug, Clone)]
pub struct FCustomFields {
    pub _version: u8,
    pub fields: Vec<(String, String)>,
}

impl View for FCustomFields {
    type V = CustomFieldsModel;

    open spec fn view(&self) -> CustomFieldsModel {
        CustomFieldsModel { version: self._version, fields: self.fields.deep_view() }
    }
}

impl FCustomFields {
    /// Builds custom fields from pairs.
    pub fn new(version: u8, fields: Vec<(String, String)>) -> (r: FCustomFields)
        ensures
            r@ == (CustomFieldsModel { version, fields: fields.deep_view() }),
    {
        FCustomFields { _version: version, fields }
    }

    /// Parses the section.
    pub fn parse(reader: &mut ByteReader) -> (r: ParseResult<FCustomFields>)
        requires
            old(reader).wf(),
        ensures
            final(reader).wf(),
            final(reader)@.data == old(reader)@.data,
            match sp_custom_fields(old(reader)@.data, old(reader)@.pos) {
                Ok((m, p)) => r matches Ok(cf) && cf@ == m && final(reader)@.pos == p,
                Err(e) => r matches Err(e2) && e2 == e,
            },
    {
        let ghost b = reader@.data;
        let ghost pos0 = reader@.pos;
        let start = reader.tell();
        let size = match reader.read_u32() {
            Ok(v) => v,
            Err(e) => {
                return Err(e);
            },
        };
        let version = match reader.read_u8() {
            Ok(v) => v,
            Err(e) => {
                return Err(e);
            },
        };
        let count = match reader.read_u32() {
            Ok(v) => v,
            Err(e) => {
                return Err(e);
            },
        };
        let ghost p3 = reader@.pos;
        let ghost f = pair_reader();
        let ghost n = count as nat;
        let mut fields: Vec<(String, String)> = Vec::new();
        let mut i: usize = 0;
        proof {
            crate::wire::lemma_sp_many_inv_init(f, b, p3, n);
            assert(fields.deep_view() =~= Seq::<(Seq<char>, Seq<char>)>::empty());
        }
        while i < count as usize
            invariant
                reader.wf(),
                reader@.data == b,
                b == old(reader)@.data,
                pos0 == old(reader)@.pos,
                i == fields.len(),
                i <= count,
                n == count as nat,
                f == pair_reader(),
                sp_u32(b, pos0) == Ok::<(u32, int), ParseError>((size, pos0 + 4)),
                sp_u8(b, pos0 + 4) == Ok::<(u8, int), ParseError>((version, pos0 + 5)),
                sp_u32(b, pos0 + 5) == Ok::<(u32, int), ParseError>((count, p3)),
                p3 == pos0 + 9,
                crate::wire::sp_many_inv(f, b, p3, n, fields.deep_view(), reader@.pos),
            decreases count - i,
        {
            let ghost p_before = reader@.pos;
            let ghost prev = fields.deep_view();
            let key = match reader.read_string() {
                Ok(s) => s,
                Err(e) => {
                    proof {
                        assert(f(b, p_before) == sp_pair(b, p_before));
                        crate::wire::lemma_sp_many_inv_err(f, b, p3, n, prev, p_before, e);
                    }
                    return Err(e);
                },
            };
            let value = match reader.read_string() {
                Ok(s) => s,
                Err(e) => {
                    proof {
                        assert(f(b, p_before) == sp_pair(b, p_before));
                        crate::wire::lemma_sp_many_inv_err(f, b, p3, n, prev, p_before, e);
                    }
                    return Err(e);
                },
            };
            proof {
                assert(f(b, p_before) == sp_pair(b, p_before));
                crate::wire::lemma_sp_many_inv_step(
                    f,
                    b,
                    p3,
                    n,
                    prev,
                    p_before,
                    (key@, value@),
                    reader@.pos,
                );
            }
            fields.push((key, value));
            proof {
                assert(fields.deep_view() =~= prev.push(fields.deep_view()[i as int]));
            }
            i = i + 1;
        }
        proof {
            crate::wire::lemma_sp_many_inv_finish(f, b, p3, n, fields.deep_view(), reader@.pos);
        }
        let end = reader.tell();
        if end < start {
            return Err(ParseError::SizeMismatch);
        }
        if end - start != size as usize {
            return Err(ParseError::SizeMismatch);
        }
        if !keys_unique(&fields) {
            return Err(ParseError::InvalidData);
        }
        Ok(FCustomFields { _version: version, fields })
    }

    /// Serializes the section.  Fails exactly when a string cannot be
    /// written or a count or size does not fit its field.
    pub fn write(&self, writer: &mut ByteWriter) -> (r: ParseResult<()>)
        ensures
            r is Ok ==> wf_custom_fields(self@) && final(writer)@ == old(writer)@
                + enc_custom_fields(self@),
            r matches Err(e) ==> !wf_custom_fields(self@) && e == ParseError::InvalidData
                && final(writer)@ == old(writer)@,
    {
        let ghost fm = self.fields.deep_view();
        let mut tw = ByteWriter::new();
        tw.write_u8(self._version);
        if self.fields.len() > 0xFFFF_FFFFusize {
            return Err(ParseError::InvalidData);
        }
        tw.write_u32(self.fields.len() as u32);
        let ghost prefix = enc_u8(self._version) + enc_u32(self.fields@.len() as u32);
        proof {
            assert(tw@ =~= prefix);
            assert(fm.take(0) =~= Seq::<(Seq<char>, Seq<char>)>::empty());
            assert(cat(pair_encoder(), fm.take(0)) =~= Seq::<u8>::empty());
            assert(tw@ =~= prefix + cat(pair_encoder(), fm.take(0)));
        }
        let mut i: usize = 0;
        while i < self.fields.len()
            invariant
                i <= self.fields@.len(),
                fm == self.fields.deep_view(),
                tw@ == prefix + cat(pair_encoder(), fm.take(i as int)),
                forall|j: int| 0 <= j < i ==> wf_pair(#[trigger] fm[j]),
            decreases self.fields@.len() - i,
        {
            let ghost before = fm.take(i as int);
            let ghost mid = tw@;
            match tw.write_string(self.fields[i].0.as_str()) {
                Ok(()) => {},
                Err(e) => {
                    return Err(e);
                },
            }
            match tw.write_string(self.fields[i].1.as_str()) {
                Ok(()) => {},
                Err(e) => {
                    return Err(e);
                },
            }
            proof {
                assert(fm[i as int] == self.fields@[i as int].deep_view());
                assert(pair_encoder()(fm[i as int]) == enc_string(self.fields@[i as int].0@)
                    + enc_string(self.fields@[i as int].1@));
                lemma_cat_push(pair_encoder(), before, fm[i as int]);
                assert(before.push(fm[i as int]) =~= fm.take(i + 1));
                assert(tw@ =~= prefix + cat(pair_encoder(), fm.take(i + 1)));
            }
            i = i + 1;
        }
        proof {
            assert(fm.take(fm.len() as int) =~= fm);
            assert(tw@ =~= custom_fields_body(self@));
        }
        if tw.tell() > 0xFFFF_FFFBusize {
            return Err(ParseError::InvalidData);
        }
        writer.write_u32(tw.tell() as u32 + 4);
        writer.write_bytes(tw.as_bytes());
        proof {
            assert(writer@ =~= old(writer)@ + enc_custom_fields(self@));
        }
        Ok(())
    }

    /// The value stored under a key, if any.
    pub fn get(&self, key: &str) -> (r: Option<&String>)
        ensures
            match r {
                Some(v) => exists|i: int|
                    0 <= i < self@.fields.len() && (#[trigger] self@.fields[i]).0 == key@
                        && self@.fields[i].1 == v@,
                None => forall|i: int|
                    0 <= i < self@.fields.len() ==> (#[trigger] self@.fields[i]).0 != key@,
            },
    {
        let mut i: usize = 0;
        while i < self.fields.len()
            invariant
                i <= self.fields@.len(),
                forall|j: int|
                    0 <= j < i ==> (#[trigger] self.fields.deep_view()[j]).0 != key@,
            decreases self.fields@.len() - i,
        {
            if crate::reader::str_eq(self.fields[i].0.as_str(), key) {
                proof {
                    let wi = i as int;
                    assert(self@.fields[wi] == self.fields@[wi].deep_view());
                    assert(self@.fields[wi].0 == key@);
                }
                return Some(&self.fields[i].1);
            }
            i = i + 1;
        }
        None
    }
}

/// True when no two pairs share a key.
pub fn keys_unique(fields: &Vec<(String, String)>) -> (r: bool)
    ensures
        r == unique_keys(fields.deep_view()),
{
    let ghost fm = fields.deep_view();
    let mut i: usize = 0;
    while i < fields.len()
        invariant
            i <= fields@.len(),
            fm == fields.deep_view(),
            forall|a: int, b: int| 0 <= a < b < fields@.len() && a < i ==> (#[trigger] fm[a]).0 != (
            #[trigger] fm[b]).0,
        decreases fields@.len() - i,
    {
        let mut j: usize = i + 1;
        while j < fields.len()
            invariant
                i < j || j == i + 1,
                i < fields@.len(),
                j <= fields@.len(),
                i + 1 <= j,
                fm == fields.deep_view(),
                forall|b: int| i < b < j ==> (#[trigger] fm[b]).0 != fm[i as int].0,
            decreases fields@.len() - j,
        {
            if crate::reader::str_eq(fields[i].0.as_str(), fields[j].0.as_str()) {
                proof {
                    assert(fm[i as int].0 == fields@[i as int].0@);
                    assert(fm[j as int].0 == fields@[j as int].0@);
                }
                return false;
            }
            j = j + 1;
        }
        i = i + 1;
    }
    true
}

/// A well-formed custom fields section with unique keys reads back as
/// itself.
pub proof fn lemma_sp_custom_fields_of_enc(b: Seq<u8>, pos: int, m: CustomFieldsModel)
    requires
        wf_custom_fields(m),
        unique_keys(m.fields),
        has_at(b, pos, enc_custom_fields(m)),
    ensures
        sp_custom_fields(b, pos) == Ok::<(CustomFieldsModel, int), ParseError>((
            m,
            pos + enc_custom_fields(m).len(),
        )),
{
    vstd::bytes::lemma_auto_spec_u32_to_from_le_bytes();
    let body = custom_fields_body(m);
    let size = (body.len() + 4) as u32;
    let n = m.fields.len();
    let pairs = cat(pair_encoder(), m.fields);
    assert(enc_custom_fields(m) =~= enc_u32(size) + body);
    lemma_has_at_split(b, pos, enc_u32(size), body);
    lemma_sp_u32_of_enc(b, pos, size);
    let p1 = pos + 4;
    assert(body =~= enc_u8(m.version) + (enc_u32(n as u32) + pairs));
    lemma_has_at_split(b, p1, enc_u8(m.version), enc_u32(n as u32) + pairs);
    lemma_sp_u8_of_enc(b, p1, m.version);
    let p2 = p1 + 1;
    lemma_has_at_split(b, p2, enc_u32(n as u32), pairs);
    lemma_sp_u32_of_enc(b, p2, n as u32);
    let p3 = p2 + 4;
    assert forall|x: (Seq<char>, Seq<char>), q: int|
        #![trigger pair_reader()(b, q), pair_encoder()(x)]
        wf_pair(x) && 0 <= q && q + pair_encoder()(x).len() <= b.len() && b.subrange(
            q,
            q + pair_encoder()(x).len() as int,
        ) == pair_encoder()(x) implies pair_reader()(b, q) == Ok::<
        ((Seq<char>, Seq<char>), int),
        ParseError,
    >((x, q + pair_encoder()(x).len() as int)) by {
        let ek = enc_string(x.0);
        let ev = enc_string(x.1);
        assert(pair_encoder()(x) =~= ek + ev);
        lemma_has_at_split(b, q, ek, ev);
        lemma_sp_string_of_enc(b, q, x.0);
        lemma_sp_string_of_enc(b, q + ek.len(), x.1);
    }
    lemma_sp_many_of_cat(pair_reader(), pair_encoder(), |x: (Seq<char>, Seq<char>)| wf_pair(x), b, p3, m.fields);
}

} // verus!
