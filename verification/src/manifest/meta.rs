//! The meta section: application-level metadata with fields gated by the
//! section's data version.
use vstd::prelude::*;

use crate::reader::ByteReader;
use crate::shared::{is_wire_level, EFeatureLevel};
use crate::wire::{
    enc_i32, enc_string, enc_string_array, enc_u32, enc_u8, has_at, lemma_has_at_split,
    lemma_sp_string_of_enc, lemma_sp_u32_of_enc, lemma_sp_u8_of_enc, sp_i32, sp_string,
    sp_string_array, sp_u32, sp_u8, wf_str,
};
use crate::writer::ByteWriter;
use crate::{ParseError, ParseResult};

verus! {

/// Ghost image of the meta section.  The feature level is its numeric wire
/// value; absent option fields stand for fields the data version does not
/// store.
#[verifier::ext_equal]
pub ghost struct MetaModel {
    pub data_version: u8,
    pub feature_level: i32,
    pub b_is_file_data: bool,
    pub app_id: u32,
    pub app_name: Seq<char>,
    pub build_version: Seq<char>,
    pub launch_exe: Seq<char>,
    pub launch_command: Seq<char>,
    pub prereq_ids: Seq<Seq<char>>,
    pub prereq_name: Seq<char>,
    pub prereq_path: Seq<char>,
    pub prereq_args: Seq<char>,
    pub build_id: Option<Seq<char>>,
    pub uninstall_action_path: Option<Seq<char>>,
    pub uninstall_action_args: Option<Seq<char>>,
}

/// The string an option field is written as: its content, or empty when
/// absent.
pub open spec fn opt_str(o: Option<Seq<char>>) -> Seq<char> {
    match o {
        Some(s) => s,
        None => Seq::empty(),
    }
}

/// The body of the meta section (everything after the size field), in wire
/// order.
pub open spec fn meta_body(m: MetaModel) -> Seq<u8> {
    enc_u8(m.data_version) + enc_i32(m.feature_level) + enc_u8(
        if m.b_is_file_data {
            1
        } else {
            0
        },
    ) + enc_u32(m.app_id) + enc_string(m.app_name) + enc_string(m.build_version) + enc_string(
        m.launch_exe,
    ) + enc_string(m.launch_command) + enc_string_array(m.prereq_ids) + enc_string(m.prereq_name)
        + enc_string(m.prereq_path) + enc_string(m.prereq_args) + (if m.data_version >= 1 {
        enc_string(opt_str(m.build_id))
    } else {
        Seq::empty()
    }) + (if m.data_version >= 2 {
        enc_string(opt_str(m.uninstall_action_path))
    } else {
        Seq::empty()
    }) + (if m.data_version >= 2 {
        enc_string(opt_str(m.uninstall_action_args))
    } else {
        Seq::empty()
    })
}

/// The whole section: a `u32` size that counts itself, then the body.
pub open spec fn enc_meta(m: MetaModel) -> Seq<u8> {
    enc_u32((meta_body(m).len() + 4) as u32) + meta_body(m)
}

/// A meta section the writer can emit: every written string is writable,
/// the prerequisite-id count fits, and the size field fits.
pub open spec fn wf_meta_emit(m: MetaModel) -> bool {
    &&& wf_str(m.app_name)
    &&& wf_str(m.build_version)
    &&& wf_str(m.launch_exe)
    &&& wf_str(m.launch_command)
    &&& m.prereq_ids.len() <= u32::MAX
    &&& forall|i: int| 0 <= i < m.prereq_ids.len() ==> wf_str(#[trigger] m.prereq_ids[i])
    &&& wf_str(m.prereq_name)
    &&& wf_str(m.prereq_path)
    &&& wf_str(m.prereq_args)
    &&& (m.data_version >= 1 ==> wf_str(opt_str(m.build_id)))
    &&& (m.data_version >= 2 ==> wf_str(opt_str(m.uninstall_action_path)) && wf_str(
        opt_str(m.uninstall_action_args),
    ))
    &&& meta_body(m).len() + 4 <= u32::MAX
}

/// A meta section that parses back as itself: emit conditions, a wire-legal
/// feature level, and option fields present exactly when the data version
/// stores them.
pub open spec fn wf_meta(m: MetaModel) -> bool {
    &&& wf_meta_emit(m)
    &&& is_wire_level(m.feature_level)
    &&& (m.build_id is Some <==> m.data_version >= 1)
    &&& (m.uninstall_action_path is Some <==> m.data_version >= 2)
    &&& (m.uninstall_action_args is Some <==> m.data_version >= 2)
}

/// Reading the meta section; the cursor must land at `start + size`.
pub open spec fn sp_meta(b: Seq<u8>, pos: int) -> Result<(MetaModel, int), ParseError> {
    match sp_u32(b, pos) {
        Ok((size, p1)) => match sp_u8(b, p1) {
            Ok((dv, p2)) => match sp_i32(b, p2) {
                Ok((fl, p3)) => if !is_wire_level(fl) {
                    Err(ParseError::InvalidData)
                } else {
                    match sp_u8(b, p3) {
                        Ok((bf, p4)) => match sp_u32(b, p4) {
                            Ok((app_id, p5)) => match sp_string(b, p5) {
                                Ok((app_name, p6)) => match sp_string(b, p6) {
                                    Ok((build_version, p7)) => match sp_string(b, p7) {
                                        Ok((launch_exe, p8)) => match sp_string(b, p8) {
                                            Ok((launch_command, p9)) => match sp_string_array(
                                                b,
                                                p9,
                                            ) {
                                                Ok((prereq_ids, p10)) => match sp_string(b, p10) {
                                                    Ok((prereq_name, p11)) => match sp_string(
                                                        b,
                                                        p11,
                                                    ) {
                                                        Ok((prereq_path, p12)) => match sp_string(
                                                            b,
                                                            p12,
                                                        ) {
                                                            Ok((prereq_args, p13)) => sp_meta_tail(
                                                                b,
                                                                pos,
                                                                size,
                                                                dv,
                                                                fl,
                                                                bf,
                                                                app_id,
                                                                app_name,
                                                                build_version,
                                                                launch_exe,
                                                                launch_command,
                                                                prereq_ids,
                                                                prereq_name,
                                                                prereq_path,
                                                                prereq_args,
                                                                p13,
                                                            ),
                                                            Err(e) => Err(e),
                                                        },
                                                        Err(e) => Err(e),
                                                    },
                                                    Err(e) => Err(e),
                                                },
                                                Err(e) => Err(e),
                                            },
                                            Err(e) => Err(e),
                                        },
                                        Err(e) => Err(e),
                                    },
                                    Err(e) => Err(e),
                                },
                                Err(e) => Err(e),
                            },
                            Err(e) => Err(e),
                        },
                        Err(e) => Err(e),
                    }
                },
                Err(e) => Err(e),
            },
            Err(e) => Err(e),
        },
        Err(e) => Err(e),
    }
}

/// The version-gated tail of the meta section, then the size check.
pub open spec fn sp_meta_tail(
    b: Seq<u8>,
    pos: int,
    size: u32,
    dv: u8,
    fl: i32,
    bf: u8,
    app_id: u32,
    app_name: Seq<char>,
    build_version: Seq<char>,
    launch_exe: Seq<char>,
    launch_command: Seq<char>,
    prereq_ids: Seq<Seq<char>>,
    prereq_name: Seq<char>,
    prereq_path: Seq<char>,
    prereq_args: Seq<char>,
    p13: int,
) -> Result<(MetaModel, int), ParseError> {
    let base = MetaModel {
        data_version: dv,
        feature_level: fl,
        b_is_file_data: bf == 1,
        app_id,
        app_name,
        build_version,
        launch_exe,
        launch_command,
        prereq_ids,
        prereq_name,
        prereq_path,
        prereq_args,
        build_id: None,
        uninstall_action_path: None,
        uninstall_action_args: None,
    };
    if dv >= 1 {
        match sp_string(b, p13) {
            Ok((build_id, p14)) => if dv >= 2 {
                match sp_string(b, p14) {
                    Ok((up, p15)) => match sp_string(b, p15) {
                        Ok((ua, p16)) => if p16 - pos == size {
                            Ok((
                                MetaModel {
                                    build_id: Some(build_id),
                                    uninstall_action_path: Some(up),
                                    uninstall_action_args: Some(ua),
                                    ..base
                                },
                                p16,
                            ))
                        } else {
                            Err(ParseError::InvalidData)
                        },
                        Err(e) => Err(e),
                    },
                    Err(e) => Err(e),
                }
            } else {
                if p14 - pos == size {
                    Ok((MetaModel { build_id: Some(build_id), ..base }, p14))
                } else {
                    Err(ParseError::InvalidData)
                }
            },
            Err(e) => Err(e),
        }
    } else {
        if p13 - pos == size {
            Ok((base, p13))
        } else {
            Err(ParseError::InvalidData)
        }
    }
}

/// The meta section of a manifest.
#[derive(Debug, Clone)]
pub struct FManifestMeta {
    pub data_version: u8,
    pub feature_level: EFeatureLevel,
    pub b_is_file_data: bool,
    pub app_id: u32,
    pub app_name: String,
    pub build_version: String,
    pub launch_exe: String,
    pub launch_command: String,
    pub prerequisites: Vec<String>,
    pub prereq_name: String,
    pub prereq_path: String,
    pub prereq_args: String,
    pub build_id: Option<String>,
    pub prereq_ids: Vec<String>,
    pub uninstall_action_path: Option<String>,
    pub uninstall_action_args: Option<String>,
}

impl View for FManifestMeta {
    type V = MetaModel;

    open spec fn view(&self) -> MetaModel {
        MetaModel {
            data_version: self.data_version,
            feature_level: self.feature_level.spec_to_i32(),
            b_is_file_data: self.b_is_file_data,
            app_id: self.app_id,
            app_name: self.app_name@,
            build_version: self.build_version@,
            launch_exe: self.launch_exe@,
            launch_command: self.launch_command@,
            prereq_ids: self.prereq_ids.deep_view(),
            prereq_name: self.prereq_name@,
            prereq_path: self.prereq_path@,
            prereq_args: self.prereq_args@,
            build_id: match self.build_id {
                Some(ref s) => Some(s@),
                None => None,
            },
            uninstall_action_path: match self.uninstall_action_path {
                Some(ref s) => Some(s@),
                None => None,
            },
            uninstall_action_args: match self.uninstall_action_args {
                Some(ref s) => Some(s@),
                None => None,
            },
        }
    }
}

impl FManifestMeta {
    /// Parses the meta section.  A parsed meta always carries an empty
    /// legacy `prerequisites` list.
    pub fn parse(reader: &mut ByteReader) -> (r: ParseResult<FManifestMeta>)
        requires
            old(reader).wf(),
        ensures
            final(reader).wf(),
            final(reader)@.data == old(reader)@.data,
            match sp_meta(old(reader)@.data, old(reader)@.pos) {
                Ok((m, p)) => r matches Ok(meta) && meta@ == m && final(reader)@.pos == p
                    && meta.prerequisites@.len() == 0,
                Err(e) => r matches Err(e2) && e2 == e,
            },
    {
        let ghost b = reader@.data;
        let ghost pos0 = reader@.pos;
        let start = reader.tell();
        let size = match reader.read_u32() {
            Ok(v) => v,
            Err(e) => {
                return Err(e);
            },
        };
        let data_version = match reader.read_u8() {
            Ok(v) => v,
            Err(e) => {
                return Err(e);
            },
        };
        let fl_raw = match reader.read_i32() {
            Ok(v) => v,
            Err(e) => {
                return Err(e);
            },
        };
        if !(fl_raw == -1i32 || (0i32 <= fl_raw && fl_raw <= 18i32) || fl_raw == 255i32) {
            return Err(ParseError::InvalidData);
        }
        let feature_level = match EFeatureLevel::from_i32(fl_raw) {
            Some(lv) => lv,
            None => {
                proof {
                    crate::shared::lemma_wire_level_round_trip(fl_raw);
                }
                return Err(ParseError::InvalidData);
            },
        };
        proof {
            crate::shared::lemma_wire_level_round_trip(fl_raw);
        }
        let bf = match reader.read_u8() {
            Ok(v) => v,
            Err(e) => {
                return Err(e);
            },
        };
        let app_id = match reader.read_u32() {
            Ok(v) => v,
            Err(e) => {
                return Err(e);
            },
        };
        let app_name = match reader.read_string() {
            Ok(v) => v,
            Err(e) => {
                return Err(e);
            },
        };
        let build_version = match reader.read_string() {
            Ok(v) => v,
            Err(e) => {
                return Err(e);
            },
        };
        let launch_exe = match reader.read_string() {
            Ok(v) => v,
            Err(e) => {
                return Err(e);
            },
        };
        let launch_command = match reader.read_string() {
            Ok(v) => v,
            Err(e) => {
                return Err(e);
            },
        };
        let prereq_ids = match reader.read_string_array() {
            Ok(v) => v,
            Err(e) => {
                return Err(e);
            },
        };
        let prereq_name = match reader.read_string() {
            Ok(v) => v,
            Err(e) => {
                return Err(e);
            },
        };
        let prereq_path = match reader.read_string() {
            Ok(v) => v,
            Err(e) => {
                return Err(e);
            },
        };
        let prereq_args = match reader.read_string() {
            Ok(v) => v,
            Err(e) => {
                return Err(e);
            },
        };
        let mut build_id: Option<String> = None;
        let mut uninstall_action_path: Option<String> = None;
        let mut uninstall_action_args: Option<String> = None;
        if data_version >= 1 {
            build_id = match reader.read_string() {
                Ok(v) => Some(v),
                Err(e) => {
                    return Err(e);
                },
            };
        }
        if data_version >= 2 {
            uninstall_action_path = match reader.read_string() {
                Ok(v) => Some(v),
                Err(e) => {
                    return Err(e);
                },
            };
            uninstall_action_args = match reader.read_string() {
                Ok(v) => Some(v),
                Err(e) => {
                    return Err(e);
                },
            };
        }
        let end = reader.tell();
        if end < start {
            return Err(ParseError::InvalidData);
        }
        if end - start != size as usize {
            return Err(ParseError::InvalidData);
        }
        Ok(FManifestMeta {
            data_version,
            feature_level,
            b_is_file_data: bf == 1,
            app_id,
            app_name,
            build_version,
            launch_exe,
            launch_command,
            prerequisites: Vec::new(),
            prereq_name,
            prereq_path,
            prereq_args,
            build_id,
            prereq_ids,
            uninstall_action_path,
            uninstall_action_args,
        })
    }

    /// Serializes the section at its stored data version.  Fails exactly
    /// when a string cannot be written or a count or size does not fit.
    #[verifier::rlimit(100)]
    #[verifier::spinoff_prover]
    pub fn write(&self, writer: &mut ByteWriter) -> (r: ParseResult<()>)
        ensures
            r is Ok ==> wf_meta_emit(self@) && final(writer)@ == old(writer)@ + enc_meta(self@),
            r matches Err(e) ==> !wf_meta_emit(self@) && e == ParseError::InvalidData
                && final(writer)@ == old(writer)@,
    {
        let mut tw = ByteWriter::new();
        tw.write_u8(self.data_version);
        proof {
            assert(tw@ =~= enc_u8(self@.data_version));
        }
        tw.write_i32(self.feature_level.to_i32());
        tw.write_u8(if self.b_is_file_data {
            1
        } else {
            0
        });
        tw.write_u32(self.app_id);
        match tw.write_string(self.app_name.as_str()) {
            Ok(()) => {},
            Err(e) => {
                return Err(e);
            },
        }
        match tw.write_string(self.build_version.as_str()) {
            Ok(()) => {},
            Err(e) => {
                return Err(e);
            },
        }
        match tw.write_string(self.launch_exe.as_str()) {
            Ok(()) => {},
            Err(e) => {
                return Err(e);
            },
        }
        match tw.write_string(self.launch_command.as_str()) {
            Ok(()) => {},
            Err(e) => {
                return Err(e);
            },
        }
        match tw.write_array(&self.prereq_ids) {
            Ok(()) => {},
            Err(e) => {
                proof {
                    if self.prereq_ids@.len() <= u32::MAX {
                        let k = choose|k: int|
                            0 <= k < self.prereq_ids@.len() && !wf_str(self.prereq_ids@[k]@);
                        assert(self@.prereq_ids[k] == self.prereq_ids@[k]@);
                        assert(!wf_meta_emit(self@));
                    }
                }
                return Err(e);
            },
        }
        match tw.write_string(self.prereq_name.as_str()) {
            Ok(()) => {},
            Err(e) => {
                return Err(e);
            },
        }
        match tw.write_string(self.prereq_path.as_str()) {
            Ok(()) => {},
            Err(e) => {
                return Err(e);
            },
        }
        match tw.write_string(self.prereq_args.as_str()) {
            Ok(()) => {},
            Err(e) => {
                return Err(e);
            },
        }
        let ghost m = self@;
        let ghost head = enc_u8(m.data_version) + enc_i32(m.feature_level) + enc_u8(
            if m.b_is_file_data {
                1
            } else {
                0
            },
        ) + enc_u32(m.app_id) + enc_string(m.app_name) + enc_string(m.build_version) + enc_string(
            m.launch_exe,
        ) + enc_string(m.launch_command) + enc_string_array(m.prereq_ids) + enc_string(
            m.prereq_name,
        ) + enc_string(m.prereq_path) + enc_string(m.prereq_args);
        proof {
            assert(tw@ == head);
        }
        if self.data_version >= 1 {
            let r = match self.build_id {
                Some(ref s) => tw.write_string(s.as_str()),
                None => {
                    let es = String::new();
                    tw.write_string(es.as_str())
                },
            };
            match r {
                Ok(()) => {},
                Err(e) => {
                    return Err(e);
                },
            }
            proof {
                assert(tw@ == head + enc_string(opt_str(m.build_id)));
            }
        }
        if self.data_version >= 2 {
            let r = match self.uninstall_action_path {
                Some(ref s) => tw.write_string(s.as_str()),
                None => {
                    let es = String::new();
                    tw.write_string(es.as_str())
                },
            };
            match r {
                Ok(()) => {},
                Err(e) => {
                    return Err(e);
                },
            }
            proof {
                assert(tw@ == head + enc_string(opt_str(m.build_id)) + enc_string(
                    opt_str(m.uninstall_action_path),
                ));
            }
            let r2 = match self.uninstall_action_args {
                Some(ref s) => tw.write_string(s.as_str()),
                None => {
                    let es = String::new();
                    tw.write_string(es.as_str())
                },
            };
            match r2 {
                Ok(()) => {},
                Err(e) => {
                    return Err(e);
                },
            }
            proof {
                assert(tw@ == head + enc_string(opt_str(m.build_id)) + enc_string(
                    opt_str(m.uninstall_action_path),
                ) + enc_string(opt_str(m.uninstall_action_args)));
                assert(tw@ =~= meta_body(m));
            }
        } else if self.data_version >= 1 {
            proof {
                assert(tw@ == head + enc_string(opt_str(m.build_id)));
                assert(tw@ =~= meta_body(m));
            }
        } else {
            proof {
                assert(tw@ == head);
                assert(tw@ =~= meta_body(m));
            }
        }
        proof {
            assert(tw@ == meta_body(m));
        }
        if tw.tell() > 0xFFFF_FFFBusize {
            return Err(ParseError::InvalidData);
        }
        writer.write_u32(tw.tell() as u32 + 4);
        writer.write_bytes(tw.as_bytes());
        proof {
            assert(writer@ =~= old(writer)@ + enc_meta(self@));
        }
        Ok(())
    }

    /// The application id.
    pub fn app_id(&self) -> (r: u32)
        ensures
            r == self@.app_id,
    {
        self.app_id
    }

    /// The application name.
    pub fn app_name(&self) -> (r: &str)
        ensures
            r@ == self@.app_name,
    {
        self.app_name.as_str()
    }

    /// The build version string.
    pub fn build_version(&self) -> (r: &str)
        ensures
            r@ == self@.build_version,
    {
        self.build_version.as_str()
    }

    /// The launch executable.
    pub fn launch_exe(&self) -> (r: &str)
        ensures
            r@ == self@.launch_exe,
    {
        self.launch_exe.as_str()
    }

    /// The launch command line.
    pub fn launch_command(&self) -> (r: &str)
        ensures
            r@ == self@.launch_command,
    {
        self.launch_command.as_str()
    }

    /// The legacy prerequisites list; always empty on parsed manifests.
    pub fn prerequisites(&self) -> (r: &Vec<String>)
        ensures
            r == &self.prerequisites,
    {
        &self.prerequisites
    }

    /// The prerequisite installer name.
    pub fn prereq_name(&self) -> (r: &str)
        ensures
            r@ == self@.prereq_name,
    {
        self.prereq_name.as_str()
    }

    /// The prerequisite installer path.
    pub fn prereq_path(&self) -> (r: &str)
        ensures
            r@ == self@.prereq_path,
    {
        self.prereq_path.as_str()
    }

    /// The prerequisite installer arguments.
    pub fn prereq_args(&self) -> (r: &str)
        ensures
            r@ == self@.prereq_args,
    {
        self.prereq_args.as_str()
    }

    /// The stored build id, when the data version stores one.
    pub fn build_id(&self) -> (r: Option<&String>)
        ensures
            match r {
                Some(s) => self@.build_id == Some(s@),
                None => self@.build_id is None,
            },
    {
        self.build_id.as_ref()
    }

    /// The prerequisite ids.
    pub fn prereq_ids(&self) -> (r: &Vec<String>)
        ensures
            r.deep_view() == self@.prereq_ids,
    {
        &self.prereq_ids
    }

    /// The uninstall action path, when the data version stores one.
    pub fn uninstall_action_path(&self) -> (r: Option<&String>)
        ensures
            match r {
                Some(s) => self@.uninstall_action_path == Some(s@),
                None => self@.uninstall_action_path is None,
            },
    {
        self.uninstall_action_path.as_ref()
    }

    /// The uninstall action arguments, when the data version stores them.
    pub fn uninstall_action_args(&self) -> (r: Option<&String>)
        ensures
            match r {
                Some(s) => self@.uninstall_action_args == Some(s@),
                None => self@.uninstall_action_args is None,
            },
    {
        self.uninstall_action_args.as_ref()
    }

    /// The feature level of the build.
    pub fn feature_level(&self) -> (r: EFeatureLevel)
        ensures
            r.spec_to_i32() == self@.feature_level,
    {
        self.feature_level
    }

    /// Whether the build holds file data rather than chunk data.
    pub fn is_file_data(&self) -> (r: bool)
        ensures
            r == self@.b_is_file_data,
    {
        self.b_is_file_data
    }

    /// The section's data version.
    pub fn data_version(&self) -> (r: u8)
        ensures
            r == self@.data_version,
    {
        self.data_version
    }
}

/// Positions of the meta section's elements inside its encoding.
pub open spec fn meta_elem_facts(b: Seq<u8>, pos: int, m: MetaModel) -> bool {
    let body = meta_body(m);
    let size = (body.len() + 4) as u32;
    let p1 = pos + 4;
    let t1 = enc_u8(m.data_version);
    let t2 = t1 + enc_i32(m.feature_level);
    let t3 = t2 + enc_u8(
        if m.b_is_file_data {
            1
        } else {
            0
        },
    );
    let t4 = t3 + enc_u32(m.app_id);
    let t5 = t4 + enc_string(m.app_name);
    let t6 = t5 + enc_string(m.build_version);
    let t7 = t6 + enc_string(m.launch_exe);
    let t8 = t7 + enc_string(m.launch_command);
    let t9 = t8 + enc_string_array(m.prereq_ids);
    let t10 = t9 + enc_string(m.prereq_name);
    let t11 = t10 + enc_string(m.prereq_path);
    let t12 = t11 + enc_string(m.prereq_args);
    let t13 = t12 + (if m.data_version >= 1 {
        enc_string(opt_str(m.build_id))
    } else {
        Seq::<u8>::empty()
    });
    let t14 = t13 + (if m.data_version >= 2 {
        enc_string(opt_str(m.uninstall_action_path))
    } else {
        Seq::<u8>::empty()
    });
    &&& sp_u32(b, pos) == Ok::<(u32, int), ParseError>((size, p1))
    &&& sp_u8(b, p1) == Ok::<(u8, int), ParseError>((m.data_version, p1 + 1))
    &&& sp_i32(b, p1 + t1.len()) == Ok::<(i32, int), ParseError>((
        m.feature_level,
        p1 + t1.len() + 4,
    ))
    &&& sp_u8(b, p1 + t2.len()) == Ok::<(u8, int), ParseError>((
        if m.b_is_file_data {
            1
        } else {
            0
        },
        p1 + t2.len() + 1,
    ))
    &&& sp_u32(b, p1 + t3.len()) == Ok::<(u32, int), ParseError>((m.app_id, p1 + t3.len() + 4))
    &&& sp_string(b, p1 + t4.len()) == Ok::<(Seq<char>, int), ParseError>((
        m.app_name,
        p1 + t5.len(),
    ))
    &&& sp_string(b, p1 + t5.len()) == Ok::<(Seq<char>, int), ParseError>((
        m.build_version,
        p1 + t6.len(),
    ))
    &&& sp_string(b, p1 + t6.len()) == Ok::<(Seq<char>, int), ParseError>((
        m.launch_exe,
        p1 + t7.len(),
    ))
    &&& sp_string(b, p1 + t7.len()) == Ok::<(Seq<char>, int), ParseError>((
        m.launch_command,
        p1 + t8.len(),
    ))
    &&& sp_string_array(b, p1 + t8.len()) == Ok::<(Seq<Seq<char>>, int), ParseError>((
        m.prereq_ids,
        p1 + t9.len(),
    ))
    &&& sp_string(b, p1 + t9.len()) == Ok::<(Seq<char>, int), ParseError>((
        m.prereq_name,
        p1 + t10.len(),
    ))
    &&& sp_string(b, p1 + t10.len()) == Ok::<(Seq<char>, int), ParseError>((
        m.prereq_path,
        p1 + t11.len(),
    ))
    &&& sp_string(b, p1 + t11.len()) == Ok::<(Seq<char>, int), ParseError>((
        m.prereq_args,
        p1 + t12.len(),
    ))
    &&& (m.data_version >= 1 ==> sp_string(b, p1 + t12.len()) == Ok::<
        (Seq<char>, int),
        ParseError,
    >((opt_str(m.build_id), p1 + t13.len())))
    &&& (m.data_version >= 2 ==> sp_string(b, p1 + t13.len()) == Ok::<
        (Seq<char>, int),
        ParseError,
    >((opt_str(m.uninstall_action_path), p1 + t14.len())))
    &&& (m.data_version >= 2 ==> sp_string(b, p1 + t14.len()) == Ok::<
        (Seq<char>, int),
        ParseError,
    >((opt_str(m.uninstall_action_args), p1 + body.len())))
}

/// Each element of a well-formed meta encoding reads back in place.
#[verifier::rlimit(100)]
#[verifier::spinoff_prover]
proof fn lemma_sp_meta_elems(b: Seq<u8>, pos: int, m: MetaModel)
    requires
        wf_meta(m),
        has_at(b, pos, enc_meta(m)),
    ensures
        meta_elem_facts(b, pos, m),
{
    vstd::bytes::lemma_auto_spec_u32_to_from_le_bytes();
    let body = meta_body(m);
    let size = (body.len() + 4) as u32;
    let e1 = enc_u8(m.data_version);
    let e2 = enc_i32(m.feature_level);
    let e3 = enc_u8(
        if m.b_is_file_data {
            1
        } else {
            0
        },
    );
    let e4 = enc_u32(m.app_id);
    let e5 = enc_string(m.app_name);
    let e6 = enc_string(m.build_version);
    let e7 = enc_string(m.launch_exe);
    let e8 = enc_string(m.launch_command);
    let e9 = enc_string_array(m.prereq_ids);
    let e10 = enc_string(m.prereq_name);
    let e11 = enc_string(m.prereq_path);
    let e12 = enc_string(m.prereq_args);
    let g1 = if m.data_version >= 1 {
        enc_string(opt_str(m.build_id))
    } else {
        Seq::<u8>::empty()
    };
    let g2 = if m.data_version >= 2 {
        enc_string(opt_str(m.uninstall_action_path))
    } else {
        Seq::<u8>::empty()
    };
    let g3 = if m.data_version >= 2 {
        enc_string(opt_str(m.uninstall_action_args))
    } else {
        Seq::<u8>::empty()
    };
    let t1 = e1;
    let t2 = t1 + e2;
    let t3 = t2 + e3;
    let t4 = t3 + e4;
    let t5 = t4 + e5;
    let t6 = t5 + e6;
    let t7 = t6 + e7;
    let t8 = t7 + e8;
    let t9 = t8 + e9;
    let t10 = t9 + e10;
    let t11 = t10 + e11;
    let t12 = t11 + e12;
    let t13 = t12 + g1;
    let t14 = t13 + g2;
    assert(body == t14 + g3);
    lemma_has_at_split(b, pos, enc_u32(size), body);
    lemma_sp_u32_of_enc(b, pos, size);
    let p1 = pos + 4;
    lemma_has_at_split(b, p1, t14, g3);
    lemma_has_at_split(b, p1, t13, g2);
    lemma_has_at_split(b, p1, t12, g1);
    lemma_has_at_split(b, p1, t11, e12);
    lemma_has_at_split(b, p1, t10, e11);
    lemma_has_at_split(b, p1, t9, e10);
    lemma_has_at_split(b, p1, t8, e9);
    lemma_has_at_split(b, p1, t7, e8);
    lemma_has_at_split(b, p1, t6, e7);
    lemma_has_at_split(b, p1, t5, e6);
    lemma_has_at_split(b, p1, t4, e5);
    lemma_has_at_split(b, p1, t3, e4);
    lemma_has_at_split(b, p1, t2, e3);
    lemma_has_at_split(b, p1, t1, e2);
    lemma_sp_u8_of_enc(b, p1, m.data_version);
    crate::wire::lemma_sp_i32_of_enc(b, p1 + t1.len(), m.feature_level);
    lemma_sp_u8_of_enc(
        b,
        p1 + t2.len(),
        if m.b_is_file_data {
            1
        } else {
            0
        },
    );
    lemma_sp_u32_of_enc(b, p1 + t3.len(), m.app_id);
    lemma_sp_string_of_enc(b, p1 + t4.len(), m.app_name);
    lemma_sp_string_of_enc(b, p1 + t5.len(), m.build_version);
    lemma_sp_string_of_enc(b, p1 + t6.len(), m.launch_exe);
    lemma_sp_string_of_enc(b, p1 + t7.len(), m.launch_command);
    crate::wire::lemma_sp_string_array_of_enc(b, p1 + t8.len(), m.prereq_ids);
    lemma_sp_string_of_enc(b, p1 + t9.len(), m.prereq_name);
    lemma_sp_string_of_enc(b, p1 + t10.len(), m.prereq_path);
    lemma_sp_string_of_enc(b, p1 + t11.len(), m.prereq_args);
    if m.data_version >= 1 {
        lemma_sp_string_of_enc(b, p1 + t12.len(), opt_str(m.build_id));
    }
    if m.data_version >= 2 {
        lemma_sp_string_of_enc(b, p1 + t13.len(), opt_str(m.uninstall_action_path));
        lemma_sp_string_of_enc(b, p1 + t14.len(), opt_str(m.uninstall_action_args));
    }
}

/// A well-formed meta section's encoding reads back as itself.
#[verifier::rlimit(100)]
#[verifier::spinoff_prover]
pub proof fn lemma_sp_meta_of_enc(b: Seq<u8>, pos: int, m: MetaModel)
    requires
        wf_meta(m),
        has_at(b, pos, enc_meta(m)),
    ensures
        sp_meta(b, pos) == Ok::<(MetaModel, int), ParseError>((m, pos + enc_meta(m).len())),
{
    vstd::bytes::lemma_auto_spec_u32_to_from_le_bytes();
    lemma_sp_meta_elems(b, pos, m);
    let body = meta_body(m);
    let size = (body.len() + 4) as u32;
    match sp_meta(b, pos) {
        Ok((m2, p)) => {
            assert(m2 =~= m);
            assert(p == pos + enc_meta(m).len());
        },
        Err(e) => {
            assert(false);
        },
    }
}

} // verus!
