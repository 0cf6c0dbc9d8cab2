//! H.265: NAL unit tagging, the HEVCDecoderConfigurationRecord, and the
//! VPS/SPS/PPS field parses.

use vstd::prelude::*;
use crate::codec::nal::{ebsp_to_rbsp, spec_ebsp_to_rbsp};
use crate::reader::{spec_read_be, spec_read_u8, spec_read_ue, spec_read_se, BitReader, Cursor};

verus! {

/// Why an HEVC parse failed.
#[derive(Clone, Copy, PartialEq, Eq, Debug, Structural)]
pub enum HevcError {
    NotEnoughData,
    UnsupportedConfigurationRecordVersion(u8),
    DecoderInitializationFailed,
    NotInitialized,
}

/// The H.265 NAL unit kinds the pipeline distinguishes.
#[derive(Clone, Copy, PartialEq, Eq, Debug, Structural)]
pub enum NaluType {
    NaluTypeSliceTrailN,
    NaluTypeSliceTrailR,
    NaluTypeSliceIdr,
    NaluTypeSliceIdrNLp,
    NaluTypeSliceCra,
    NaluTypeVps,
    NaluTypeSps,
    NaluTypePps,
    NaluTypeAud,
    NaluTypeSei,
    Unknown(u8),
}

/// The kind denoted by a six-bit NAL unit type value.
pub open spec fn spec_nalu_type_from(v: u8) -> NaluType {
    if v == 0 {
        NaluType::NaluTypeSliceTrailN
    } else if v == 1 {
        NaluType::NaluTypeSliceTrailR
    } else if v == 19 {
        NaluType::NaluTypeSliceIdr
    } else if v == 20 {
        NaluType::NaluTypeSliceIdrNLp
    } else if v == 21 {
        NaluType::NaluTypeSliceCra
    } else if v == 32 {
        NaluType::NaluTypeVps
    } else if v == 33 {
        NaluType::NaluTypeSps
    } else if v == 34 {
        NaluType::NaluTypePps
    } else if v == 35 {
        NaluType::NaluTypeAud
    } else if v == 39 {
        NaluType::NaluTypeSei
    } else {
        NaluType::Unknown(v)
    }
}

/// The six-bit value of a kind.
pub open spec fn spec_nalu_type_value(t: NaluType) -> u8 {
    match t {
        NaluType::NaluTypeSliceTrailN => 0,
        NaluType::NaluTypeSliceTrailR => 1,
        NaluType::NaluTypeSliceIdr => 19,
        NaluType::NaluTypeSliceIdrNLp => 20,
        NaluType::NaluTypeSliceCra => 21,
        NaluType::NaluTypeVps => 32,
        NaluType::NaluTypeSps => 33,
        NaluType::NaluTypePps => 34,
        NaluType::NaluTypeAud => 35,
        NaluType::NaluTypeSei => 39,
        NaluType::Unknown(v) => v,
    }
}

impl NaluType {
    /// Build from the six-bit value.
    pub fn from_value(v: u8) -> (r: NaluType)
        ensures
            r == spec_nalu_type_from(v),
    {
        match v {
            0 => NaluType::NaluTypeSliceTrailN,
            1 => NaluType::NaluTypeSliceTrailR,
            19 => NaluType::NaluTypeSliceIdr,
            20 => NaluType::NaluTypeSliceIdrNLp,
            21 => NaluType::NaluTypeSliceCra,
            32 => NaluType::NaluTypeVps,
            33 => NaluType::NaluTypeSps,
            34 => NaluType::NaluTypePps,
            35 => NaluType::NaluTypeAud,
            39 => NaluType::NaluTypeSei,
            _ => NaluType::Unknown(v),
        }
    }

    /// The six-bit value.
    pub fn value(&self) -> (r: u8)
        ensures
            r == spec_nalu_type_value(*self),
    {
        match self {
            NaluType::NaluTypeSliceTrailN => 0,
            NaluType::NaluTypeSliceTrailR => 1,
            NaluType::NaluTypeSliceIdr => 19,
            NaluType::NaluTypeSliceIdrNLp => 20,
            NaluType::NaluTypeSliceCra => 21,
            NaluType::NaluTypeVps => 32,
            NaluType::NaluTypeSps => 33,
            NaluType::NaluTypePps => 34,
            NaluType::NaluTypeAud => 35,
            NaluType::NaluTypeSei => 39,
            NaluType::Unknown(v) => *v,
        }
    }
}

/// One H.265 NAL unit: its kind, layer and temporal ids, and the payload
/// after the two-byte header.
#[derive(Clone, Debug)]
pub struct Unit {
    pub kind: NaluType,
    pub layer_id: u8,
    pub temporal_id: u8,
    pub data: Vec<u8>,
}

/// Specification view of a `Unit`.
#[verifier::ext_equal]
pub struct UnitView {
    pub kind: NaluType,
    pub layer_id: u8,
    pub temporal_id: u8,
    pub data: Seq<u8>,
}

impl View for Unit {
    type V = UnitView;

    open spec fn view(&self) -> UnitView {
        UnitView {
            kind: self.kind,
            layer_id: self.layer_id,
            temporal_id: self.temporal_id,
            data: self.data@,
        }
    }
}

impl UnitView {
    /// Header fields in range and the kind canonical.
    pub open spec fn wf(self) -> bool {
        &&& spec_nalu_type_value(self.kind) < 64
        &&& spec_nalu_type_from(spec_nalu_type_value(self.kind)) == self.kind
        &&& self.layer_id < 64
        &&& self.temporal_id < 8
    }
}

/// The serialized unit: the two header bytes then the payload.
pub open spec fn spec_unit_bytes(u: UnitView) -> Seq<u8> {
    seq![
        (spec_nalu_type_value(u.kind) * 2 + u.layer_id / 32) as u8,
        ((u.layer_id % 32) * 8 + u.temporal_id) as u8,
    ] + u.data
}

/// The unit parsed from raw bytes.
pub open spec fn spec_parse_unit(s: Seq<u8>) -> Result<UnitView, HevcError> {
    if s.len() < 2 {
        Err(HevcError::NotEnoughData)
    } else {
        Ok(
            UnitView {
                kind: spec_nalu_type_from(((s[0] / 2) % 64) as u8),
                layer_id: ((s[0] % 2) * 32 + s[1] / 8) as u8,
                temporal_id: (s[1] % 8) as u8,
                data: s.skip(2),
            },
        )
    }
}

/// Parsing undoes serialization on well-formed units.
pub proof fn lemma_unit_round_trip(u: UnitView)
    requires
        u.wf(),
    ensures
        spec_parse_unit(spec_unit_bytes(u)) == Ok::<UnitView, HevcError>(u),
{
    let s = spec_unit_bytes(u);
    assert(s[0] == spec_nalu_type_value(u.kind) * 2 + u.layer_id / 32);
    assert(s[1] == (u.layer_id % 32) * 8 + u.temporal_id);
    assert(s.skip(2) =~= u.data);
}

impl Unit {
    /// Parse one unit from its raw bytes.
    pub fn try_from_bytes(bytes: &Vec<u8>) -> (r: Result<Unit, HevcError>)
        ensures
            match spec_parse_unit(bytes@) {
                Ok(u) => r matches Ok(unit) && unit@ == u && unit@.wf(),
                Err(e) => r == Err::<Unit, HevcError>(e),
            },
    {
        if bytes.len() < 2 {
            return Err(HevcError::NotEnoughData);
        }
        let b0 = bytes[0];
        let b1 = bytes[1];
        let data = crate::ts::demuxer::copy_range(bytes, 2, bytes.len() - 2);
        proof {
            assert(bytes@.subrange(2, bytes@.len() as int) =~= bytes@.skip(2));
        }
        Ok(
            Unit {
                kind: NaluType::from_value((b0 / 2) % 64),
                layer_id: (b0 % 2) * 32 + b1 / 8,
                temporal_id: b1 % 8,
                data,
            },
        )
    }

    /// The payload after the header bytes.
    pub fn payload(&self) -> (r: &Vec<u8>)
        ensures
            r@ == self@.data,
    {
        &self.data
    }

    /// Serialize the unit: two header bytes then the payload.
    pub fn to_bytes(&self) -> (r: Vec<u8>)
        requires
            self@.wf(),
        ensures
            r@ == spec_unit_bytes(self@),
    {
        let mut out: Vec<u8> = Vec::new();
        out.push(self.kind.value() * 2 + self.layer_id / 32);
        out.push((self.layer_id % 32) * 8 + self.temporal_id);
        crate::codec::h264::append_bytes(&mut out, &self.data);
        proof {
            assert(out@ =~= spec_unit_bytes(self@));
        }
        out
    }
}

/// The views of a unit list.
pub open spec fn unit_views(s: Seq<Unit>) -> Seq<UnitView> {
    s.map_values(|u: Unit| u@)
}

/// The HEVCDecoderConfigurationRecord.
#[derive(Clone, Debug)]
pub struct HEVCDecoderConfigurationRecord {
    pub configuration_version: u8,
    pub general_profile_space: u8,
    pub general_tier_flag: bool,
    pub general_profile_idc: u8,
    pub general_profile_compatibility_flags: u32,
    pub general_constraint_indicator_flags: u64,
    pub general_level_idc: u8,
    pub chroma_format_idc: u8,
    pub bit_depth_luma_minus8: u8,
    pub bit_depth_chroma_minus8: u8,
    pub avg_frame_rate: u16,
    pub constant_frame_rate: u8,
    pub length_size_minus_one: u8,
    pub min_spatial_segmentation_idc: u16,
    pub num_temporal_layers: u8,
    pub temporal_id_nested: bool,
    pub parallelism_type: u8,
    pub vps: Vec<Unit>,
    pub sps: Vec<Unit>,
    pub pps: Vec<Unit>,
}

impl Default for HEVCDecoderConfigurationRecord {
    fn default() -> (r: Self)
        ensures
            r.configuration_version == 1,
            r.general_profile_compatibility_flags == 0xffffffff,
            r.general_constraint_indicator_flags == 0xffffffffffff,
            r.length_size_minus_one == 3,
            r.vps@.len() == 0,
            r.sps@.len() == 0,
            r.pps@.len() == 0,
    {
        Self {
            configuration_version: 1u8,
            general_profile_space: 0,
            general_tier_flag: false,
            general_profile_idc: 0,
            general_profile_compatibility_flags: 0xffffffff,
            general_constraint_indicator_flags: 0xffffffffffff,
            general_level_idc: 0,
            chroma_format_idc: 0,
            bit_depth_luma_minus8: 0,
            bit_depth_chroma_minus8: 0,
            avg_frame_rate: 0,
            constant_frame_rate: 0,
            length_size_minus_one: 3u8,
            min_spatial_segmentation_idc: 0,
            num_temporal_layers: 0,
            temporal_id_nested: false,
            parallelism_type: 0,
            vps: Vec::new(),
            sps: Vec::new(),
            pps: Vec::new(),
        }
    }
}

/// Mirror of one parameter-set array of the record: `n` entries of a
/// two-byte length and the unit bytes.
pub open spec fn spec_parse_hevc_units(s: Seq<u8>, pos: int, n: int) -> Result<
    (Seq<UnitView>, int),
    HevcError,
>
    decreases n,
{
    if n <= 0 {
        Ok((Seq::empty(), pos))
    } else {
        match spec_read_be(s, pos, 2) {
            None => Err(HevcError::NotEnoughData),
            Some((l, p1)) => {
                if p1 + l > s.len() {
                    Err(HevcError::NotEnoughData)
                } else {
                    match spec_parse_unit(s.subrange(p1, p1 + l)) {
                        Err(e) => Err(e),
                        Ok(u) => match spec_parse_hevc_units(s, p1 + l, n - 1) {
                            Err(e) => Err(e),
                            Ok((rest, pend)) => Ok((seq![u] + rest, pend)),
                        },
                    }
                }
            },
        }
    }
}

/// Mirror of the record parse: version one, 22 skipped profile bytes,
/// then the VPS, SPS and PPS arrays, each announced by its type byte.
pub open spec fn spec_parse_hevc_dcr(s: Seq<u8>) -> Result<
    (Seq<UnitView>, Seq<UnitView>, Seq<UnitView>),
    HevcError,
> {
    if s.len() < 27 {
        Err(HevcError::NotEnoughData)
    } else if s[0] != 1 {
        Err(HevcError::UnsupportedConfigurationRecordVersion(s[0]))
    } else if s[23] % 64 != 32 {
        Err(HevcError::NotEnoughData)
    } else {
        match spec_read_be(s, 24, 2) {
            None => Err(HevcError::NotEnoughData),
            Some((nv, p0)) => match spec_parse_hevc_units(s, p0, nv as int) {
                Err(e) => Err(e),
                Ok((vps, p1)) => match spec_read_u8(s, p1) {
                    None => Err(HevcError::NotEnoughData),
                    Some((tb1, p2)) => {
                        if tb1 % 64 != 33 {
                            Err(HevcError::NotEnoughData)
                        } else {
                            match spec_read_be(s, p2, 2) {
                                None => Err(HevcError::NotEnoughData),
                                Some((ns, p3)) => match spec_parse_hevc_units(s, p3, ns as int) {
                                    Err(e) => Err(e),
                                    Ok((sps, p4)) => match spec_read_u8(s, p4) {
                                        None => Err(HevcError::NotEnoughData),
                                        Some((tb2, p5)) => {
                                            if tb2 % 64 != 34 {
                                                Err(HevcError::NotEnoughData)
                                            } else {
                                                match spec_read_be(s, p5, 2) {
                                                    None => Err(HevcError::NotEnoughData),
                                                    Some((np, p6)) => match spec_parse_hevc_units(
                                                        s,
                                                        p6,
                                                        np as int,
                                                    ) {
                                                        Err(e) => Err(e),
                                                        Ok((pps, _)) => Ok((vps, sps, pps)),
                                                    },
                                                }
                                            }
                                        },
                                    },
                                },
                            }
                        }
                    },
                },
            },
        }
    }
}

impl HEVCDecoderConfigurationRecord {
    /// Parse a record from raw bytes; all fields other than the
    /// parameter-set lists keep their defaults until `parse` decodes
    /// them.
    #[verifier::rlimit(100)]
    #[verifier::spinoff_prover]
    #[verifier::loop_isolation(false)]
    pub fn try_from_bytes(bytes: &Vec<u8>) -> (r: Result<Self, HevcError>)
        ensures
            match spec_parse_hevc_dcr(bytes@) {
                Ok((vps, sps, pps)) => r matches Ok(dcr) && dcr.configuration_version == 1
                    && unit_views(dcr.vps@) == vps && unit_views(dcr.sps@) == sps && unit_views(
                    dcr.pps@,
                ) == pps,
                Err(e) => r == Err::<Self, HevcError>(e),
            },
    {
        if bytes.len() < 27 {
            return Err(HevcError::NotEnoughData);
        }
        let version = bytes[0];
        if version != 1 {
            return Err(HevcError::UnsupportedConfigurationRecordVersion(version));
        }
        if bytes[23] % 64 != 32 {
            return Err(HevcError::NotEnoughData);
        }
        let mut reader = Cursor::new(bytes);
        let skipped = reader.skip(24);
        proof {
            assert(skipped);
        }
        let nv = match reader.read_be(2) {
            Some(v) => {
                proof {
                    crate::reader::lemma_be_value_bound(
                        reader.data@.subrange(reader.pos - 2, reader.pos as int),
                    );
                    assert(crate::reader::pow256(2) == 65536) by {
                        reveal_with_fuel(crate::reader::pow256, 3);
                    }
                }
                v as usize
            },
            None => {
                return Err(HevcError::NotEnoughData);
            },
        };
        let vps = match Self::read_units(&mut reader, nv) {
            Ok(u) => u,
            Err(e) => {
                return Err(e);
            },
        };
        let tb1 = match reader.read_u8() {
            Some(b) => b,
            None => {
                return Err(HevcError::NotEnoughData);
            },
        };
        if tb1 % 64 != 33 {
            return Err(HevcError::NotEnoughData);
        }
        let ns = match reader.read_be(2) {
            Some(v) => {
                proof {
                    crate::reader::lemma_be_value_bound(
                        reader.data@.subrange(reader.pos - 2, reader.pos as int),
                    );
                    assert(crate::reader::pow256(2) == 65536) by {
                        reveal_with_fuel(crate::reader::pow256, 3);
                    }
                }
                v as usize
            },
            None => {
                return Err(HevcError::NotEnoughData);
            },
        };
        let sps = match Self::read_units(&mut reader, ns) {
            Ok(u) => u,
            Err(e) => {
                return Err(e);
            },
        };
        let tb2 = match reader.read_u8() {
            Some(b) => b,
            None => {
                return Err(HevcError::NotEnoughData);
            },
        };
        if tb2 % 64 != 34 {
            return Err(HevcError::NotEnoughData);
        }
        let np = match reader.read_be(2) {
            Some(v) => {
                proof {
                    crate::reader::lemma_be_value_bound(
                        reader.data@.subrange(reader.pos - 2, reader.pos as int),
                    );
                    assert(crate::reader::pow256(2) == 65536) by {
                        reveal_with_fuel(crate::reader::pow256, 3);
                    }
                }
                v as usize
            },
            None => {
                return Err(HevcError::NotEnoughData);
            },
        };
        let pps = match Self::read_units(&mut reader, np) {
            Ok(u) => u,
            Err(e) => {
                return Err(e);
            },
        };
        let mut c = Self::default();
        c.vps = vps;
        c.sps = sps;
        c.pps = pps;
        Ok(c)
    }

    /// The serialized size in bytes: the 23-byte fixed part, then a
    /// five-byte array header and two length bytes plus payload per
    /// parameter set.
    pub open spec fn spec_size(self) -> int {
        23 + 1 + spec_hevc_units_size(self.sps@) + 1 + spec_hevc_units_size(self.pps@) + 1
            + spec_hevc_units_size(self.vps@)
    }

    /// The serialized size in bytes.
    pub fn size(&self) -> (r: u64)
        requires
            self.spec_size() <= u64::MAX,
        ensures
            r == self.spec_size(),
    {
        proof {
            lemma_hevc_units_size_nonneg(self.sps@);
            lemma_hevc_units_size_nonneg(self.pps@);
            lemma_hevc_units_size_nonneg(self.vps@);
        }
        let mut total: u64 = 23;
        total = total + 1;
        total = total + hevc_units_size(&self.sps);
        total = total + 1;
        total = total + hevc_units_size(&self.pps);
        total = total + 1;
        total = total + hevc_units_size(&self.vps);
        total
    }

    /// Serialize the record, with one VPS, SPS and PPS each, as the wire
    /// format written here declares.
    pub fn to_bytes(&self) -> (r: Vec<u8>)
        requires
            self.vps@.len() >= 1,
            self.sps@.len() >= 1,
            self.pps@.len() >= 1,
            self.vps@[0]@.wf(),
            self.sps@[0]@.wf(),
            self.pps@[0]@.wf(),
            self.vps@[0]@.data.len() + 2 <= 65535,
            self.sps@[0]@.data.len() + 2 <= 65535,
            self.pps@[0]@.data.len() + 2 <= 65535,
            self.general_profile_space < 4,
            self.general_profile_idc < 32,
            self.general_constraint_indicator_flags < 0x1_0000_0000_0000,
            self.num_temporal_layers < 8,
            self.length_size_minus_one < 4,
        ensures
            r@ == spec_hevc_dcr_bytes(*self),
    {
        let mut buf: Vec<u8> = Vec::new();
        buf.push(self.configuration_version);
        buf.push(
            self.general_profile_space * 64 + (if self.general_tier_flag {
                32
            } else {
                0
            }) + self.general_profile_idc,
        );
        push_u32_be(&mut buf, self.general_profile_compatibility_flags);
        push_u32_be(&mut buf, (self.general_constraint_indicator_flags / 0x1_0000) as u32);
        push_u16_be(&mut buf, (self.general_constraint_indicator_flags % 0x1_0000) as u16);
        buf.push(self.general_level_idc);
        push_u16_be(&mut buf, 0xf000);
        buf.push(0xfc);
        buf.push(self.chroma_format_idc | 0xfc);
        buf.push(self.bit_depth_luma_minus8 | 0xf8);
        buf.push(self.bit_depth_chroma_minus8 | 0xf8);
        push_u16_be(&mut buf, 0);
        buf.push(
            self.num_temporal_layers * 8 + (if self.temporal_id_nested {
                4
            } else {
                0
            }) + self.length_size_minus_one,
        );
        buf.push(0x03);
        buf.push(32);
        push_u16_be(&mut buf, 1);
        let vb = self.vps[0].to_bytes();
        push_u16_be(&mut buf, vb.len() as u16);
        crate::codec::h264::append_bytes(&mut buf, &vb);
        buf.push(33);
        push_u16_be(&mut buf, 1);
        let sb = self.sps[0].to_bytes();
        push_u16_be(&mut buf, sb.len() as u16);
        crate::codec::h264::append_bytes(&mut buf, &sb);
        buf.push(34);
        push_u16_be(&mut buf, 1);
        let pb = self.pps[0].to_bytes();
        push_u16_be(&mut buf, pb.len() as u16);
        crate::codec::h264::append_bytes(&mut buf, &pb);
        proof {
            assert(buf@ =~= spec_hevc_dcr_bytes(*self));
        }
        buf
    }

    /// Serialize the record, appending to `out`.
    pub fn mux(&self, out: &mut Vec<u8>)
        requires
            self.vps@.len() >= 1,
            self.sps@.len() >= 1,
            self.pps@.len() >= 1,
            self.vps@[0]@.wf(),
            self.sps@[0]@.wf(),
            self.pps@[0]@.wf(),
            self.vps@[0]@.data.len() + 2 <= 65535,
            self.sps@[0]@.data.len() + 2 <= 65535,
            self.pps@[0]@.data.len() + 2 <= 65535,
            self.general_profile_space < 4,
            self.general_profile_idc < 32,
            self.general_constraint_indicator_flags < 0x1_0000_0000_0000,
            self.num_temporal_layers < 8,
            self.length_size_minus_one < 4,
        ensures
            final(out)@ == old(out)@ + spec_hevc_dcr_bytes(*self),
    {
        let bytes = self.to_bytes();
        crate::codec::h264::append_bytes(out, &bytes);
    }

    /// Read `n` length-prefixed parameter sets.
    #[verifier::rlimit(60)]
    #[verifier::loop_isolation(false)]
    fn read_units(reader: &mut Cursor, n: usize) -> (r: Result<Vec<Unit>, HevcError>)
        requires
            old(reader).wf(),
        ensures
            final(reader).data == old(reader).data,
            final(reader).wf(),
            match spec_parse_hevc_units(old(reader).data@, old(reader).pos as int, n as int) {
                Ok((views, pend)) => r matches Ok(units) && unit_views(units@) == views && (forall|
                    i: int,
                |
                    0 <= i < units@.len() ==> (#[trigger] units@[i])@.wf()) && final(reader).pos
                    == pend,
                Err(e) => r == Err::<Vec<Unit>, HevcError>(e),
            },
    {
        let ghost s = reader.data@;
        let ghost pos0 = reader.pos as int;
        let mut units: Vec<Unit> = Vec::new();
        let mut i: usize = 0;
        proof {
            assert(unit_views(units@) =~= Seq::<UnitView>::empty());
            match spec_parse_hevc_units(s, reader.pos as int, n as int) {
                Ok((rest, pend)) => {
                    assert(unit_views(units@) + rest =~= rest);
                },
                Err(_) => {},
            }
        }
        while i < n
            invariant
                i <= n,
                reader.wf(),
                reader.data == old(reader).data,
                reader.data@ == s,
                units@.len() == i,
                forall|k: int| 0 <= k < units@.len() ==> (#[trigger] units@[k])@.wf(),
                match spec_parse_hevc_units(s, reader.pos as int, (n - i) as int) {
                    Ok((rest, pend)) => spec_parse_hevc_units(s, pos0, n as int) matches Ok(full)
                        && full.0 == unit_views(units@) + rest && full.1 == pend,
                    Err(e) => spec_parse_hevc_units(s, pos0, n as int) == Err::<
                        (Seq<UnitView>, int),
                        HevcError,
                    >(e),
                },
            decreases n - i,
        {
            let l = match reader.read_be(2) {
                Some(v) => {
                    proof {
                        crate::reader::lemma_be_value_bound(
                            s.subrange(reader.pos - 2, reader.pos as int),
                        );
                        assert(crate::reader::pow256(2) == 65536) by {
                            reveal_with_fuel(crate::reader::pow256, 3);
                        }
                    }
                    v as usize
                },
                None => {
                    return Err(HevcError::NotEnoughData);
                },
            };
            if l > reader.remaining() {
                return Err(HevcError::NotEnoughData);
            }
            let span = crate::ts::demuxer::copy_range(reader.data, reader.pos, l);
            let skipped = reader.skip(l);
            proof {
                assert(skipped);
            }
            let unit = match Unit::try_from_bytes(&span) {
                Ok(u) => u,
                Err(e) => {
                    return Err(e);
                },
            };
            proof {
                let m = (n - i) as int;
                match spec_parse_hevc_units(s, reader.pos as int, m - 1) {
                    Ok((rest, pend)) => {
                        assert(unit_views(units@.push(unit)) =~= unit_views(units@).push(unit@));
                        assert(unit_views(units@) + (seq![unit@] + rest) =~= unit_views(
                            units@.push(unit),
                        ) + rest);
                    },
                    Err(_) => {},
                }
            }
            units.push(unit);
            i = i + 1;
        }
        proof {
            assert(unit_views(units@) + Seq::<UnitView>::empty() =~= unit_views(units@));
        }
        Ok(units)
    }
}

/// Two length bytes plus the payload length, for each unit in the list.
pub open spec fn spec_hevc_units_size(s: Seq<Unit>) -> int
    decreases s.len(),
{
    if s.len() == 0 {
        0
    } else {
        spec_hevc_units_size(s.drop_last()) + 2 + s.last()@.data.len()
    }
}

pub proof fn lemma_hevc_units_size_nonneg(s: Seq<Unit>)
    ensures
        spec_hevc_units_size(s) >= 0,
    decreases s.len(),
{
    if s.len() > 0 {
        lemma_hevc_units_size_nonneg(s.drop_last());
    }
}

proof fn lemma_hevc_units_size_prefix(s: Seq<Unit>, n: int)
    requires
        0 <= n <= s.len(),
    ensures
        spec_hevc_units_size(s.subrange(0, n)) <= spec_hevc_units_size(s),
    decreases s.len() - n,
{
    if n == s.len() {
        assert(s.subrange(0, n) =~= s);
    } else {
        lemma_hevc_units_size_prefix(s, n + 1);
        assert(s.subrange(0, n + 1).drop_last() =~= s.subrange(0, n));
        assert(s.subrange(0, n + 1).last() == s[n]);
    }
}

/// Sum the serialized sizes of a parameter-set list.
fn hevc_units_size(units: &Vec<Unit>) -> (r: u64)
    requires
        spec_hevc_units_size(units@) <= u64::MAX,
    ensures
        r == spec_hevc_units_size(units@),
{
    let mut total: u64 = 0;
    let mut i: usize = 0;
    proof {
        assert(units@.subrange(0, 0) =~= Seq::<Unit>::empty());
    }
    while i < units.len()
        invariant
            i <= units@.len(),
            total == spec_hevc_units_size(units@.subrange(0, i as int)),
            spec_hevc_units_size(units@) <= u64::MAX,
        decreases units@.len() - i,
    {
        proof {
            assert(units@.subrange(0, i + 1).drop_last() =~= units@.subrange(0, i as int));
            assert(units@.subrange(0, i + 1).last() == units@[i as int]);
            lemma_hevc_units_size_prefix(units@, i + 1);
            lemma_hevc_units_size_nonneg(units@.subrange(0, i as int));
        }
        let len = units[i].data.len();
        if len as u64 > u64::MAX - 2 - total {
            proof {
                assert(false);
            }
        }
        total = total + 2 + len as u64;
        i = i + 1;
    }
    proof {
        assert(units@.subrange(0, units@.len() as int) =~= units@);
    }
    total
}

/// The serialized record: the fixed profile bytes, the reserved fields,
/// and the three parameter-set arrays, one entry each.
pub open spec fn spec_hevc_dcr_bytes(d: HEVCDecoderConfigurationRecord) -> Seq<u8> {
    seq![
        d.configuration_version,
        (d.general_profile_space * 64 + (if d.general_tier_flag {
            32u8
        } else {
            0u8
        }) + d.general_profile_idc) as u8,
    ] + spec_u32_be(d.general_profile_compatibility_flags) + spec_u32_be(
        (d.general_constraint_indicator_flags / 0x1_0000) as u32,
    ) + spec_u16_be((d.general_constraint_indicator_flags % 0x1_0000) as u16) + seq![
        d.general_level_idc,
        0xf0u8,
        0x00u8,
        0xfcu8,
        (d.chroma_format_idc | 0xfc) as u8,
        (d.bit_depth_luma_minus8 | 0xf8) as u8,
        (d.bit_depth_chroma_minus8 | 0xf8) as u8,
        0u8,
        0u8,
        (d.num_temporal_layers * 8 + (if d.temporal_id_nested {
            4u8
        } else {
            0u8
        }) + d.length_size_minus_one) as u8,
        0x03u8,
        32u8,
        0u8,
        1u8,
    ] + spec_u16_be(spec_unit_bytes(d.vps@[0]@).len() as u16) + spec_unit_bytes(d.vps@[0]@) + seq![
        33u8,
        0u8,
        1u8,
    ] + spec_u16_be(spec_unit_bytes(d.sps@[0]@).len() as u16) + spec_unit_bytes(d.sps@[0]@) + seq![
        34u8,
        0u8,
        1u8,
    ] + spec_u16_be(spec_unit_bytes(d.pps@[0]@).len() as u16) + spec_unit_bytes(d.pps@[0]@)
}

/// The two big-endian bytes of a 16-bit value.
pub open spec fn spec_u16_be(v: u16) -> Seq<u8> {
    seq![(v / 256) as u8, (v % 256) as u8]
}

/// The four big-endian bytes of a 32-bit value.
pub open spec fn spec_u32_be(v: u32) -> Seq<u8> {
    seq![
        (v / 0x100_0000) as u8,
        ((v / 0x1_0000) % 256) as u8,
        ((v / 256) % 256) as u8,
        (v % 256) as u8,
    ]
}

/// Append a 16-bit value, big endian.
pub fn push_u16_be(out: &mut Vec<u8>, v: u16)
    ensures
        final(out)@ == old(out)@ + spec_u16_be(v),
{
    out.push((v / 256) as u8);
    out.push((v % 256) as u8);
    proof {
        assert(out@ =~= old(out)@ + spec_u16_be(v));
    }
}

/// Append a 32-bit value, big endian.
pub fn push_u32_be(out: &mut Vec<u8>, v: u32)
    ensures
        final(out)@ == old(out)@ + spec_u32_be(v),
{
    out.push((v / 0x100_0000) as u8);
    out.push(((v / 0x1_0000) % 256) as u8);
    out.push(((v / 256) % 256) as u8);
    out.push((v % 256) as u8);
    proof {
        assert(out@ =~= old(out)@ + spec_u32_be(v));
    }
}


/// What the SPS parse derives.
#[verifier::ext_equal]
pub struct HevcSpsInfo {
    pub general_profile_space: u8,
    pub general_tier_flag: bool,
    pub general_profile_idc: u8,
    pub general_profile_compatibility_flags: u32,
    pub general_constraint_indicator_flags: u64,
    pub general_level_idc: u8,
    pub chroma_format_idc: u8,
    pub bit_depth_luma_minus8: u8,
    pub bit_depth_chroma_minus8: u8,
}

/// Mirror of the VPS parse over the unescaped payload: the id and
/// reserved bits, the layer counts, and the nesting flag.
pub open spec fn spec_parse_hevc_vps(s: Seq<u8>) -> Option<(u8, bool)> {
    if 16 > 8 * s.len() {
        None
    } else {
        Some(
            (
                (crate::reader::bits_value(s, 12, 3) + 1) as u8,
                crate::reader::bit_at(s, 15),
            ),
        )
    }
}

/// Mirror of the sub-layer ordering-information walk of the SPS: each
/// present profile costs eighteen bits, each present level eight, with
/// the presence flags sitting in the pairs right after the level byte.
pub open spec fn spec_skip_sub_layers(s: Seq<u8>, p: int, i: int, msl: int, p0: int) -> Option<
    int,
>
    decreases msl - i,
{
    if i >= msl {
        Some(p)
    } else {
        let need: int = (if crate::reader::bit_at(s, p0 + 2 * i) {
            18int
        } else {
            0int
        }) + (if crate::reader::bit_at(s, p0 + 2 * i + 1) {
            8int
        } else {
            0int
        });
        if p + need <= 8 * s.len() {
            spec_skip_sub_layers(s, p + need, i + 1, msl, p0)
        } else {
            None
        }
    }
}

/// Mirror of the SPS parse over the unescaped payload, up to the bit
/// depths the record keeps.
pub open spec fn spec_parse_hevc_sps(s: Seq<u8>) -> Option<HevcSpsInfo> {
    if 8 > 8 * s.len() {
        None
    } else {
        let msl = crate::reader::bits_value(s, 4, 3) as int;
        if 8 + 2 + 1 + 5 + 32 + 48 + 8 > 8 * s.len() {
            None
        } else {
            let gps = crate::reader::bits_value(s, 8, 2) as u8;
            let tier = crate::reader::bit_at(s, 10);
            let idc = crate::reader::bits_value(s, 11, 5) as u8;
            let compat = crate::reader::bits_value(s, 16, 32) as u32;
            let constraints = crate::reader::bits_value(s, 48, 48) as u64;
            let level = crate::reader::bits_value(s, 96, 8) as u8;
            let p0 = 104int;
            if p0 + 2 * msl > 8 * s.len() {
                None
            } else {
                let p1 = p0 + 2 * msl + (if msl > 0 {
                    2 * (8 - msl)
                } else {
                    0int
                });
                if p1 > 8 * s.len() {
                    None
                } else {
                    match spec_skip_sub_layers(s, p1, 0, msl, p0) {
                        None => None,
                        Some(p2) => spec_parse_hevc_sps_tail(
                            s,
                            p2,
                            gps,
                            tier,
                            idc,
                            compat,
                            constraints,
                            level,
                        ),
                    }
                }
            }
        }
    }
}

/// The tail of the SPS parse: the ids, the chroma format, the picture
/// size and conformance window (validated and discarded), and the bit
/// depths.
pub open spec fn spec_parse_hevc_sps_tail(
    s: Seq<u8>,
    p: int,
    gps: u8,
    tier: bool,
    idc: u8,
    compat: u32,
    constraints: u64,
    level: u8,
) -> Option<HevcSpsInfo> {
    match spec_read_ue(s, p) {
        None => None,
        Some((_sps_id, q1)) => match spec_read_ue(s, q1) {
            None => None,
            Some((chroma, q2)) => {
                let q3 = if chroma == 3 {
                    q2 + 8
                } else {
                    q2
                };
                if q3 > 8 * s.len() {
                    None
                } else {
                    match spec_read_ue(s, q3) {
                        None => None,
                        Some((_pw, q4)) => match spec_read_ue(s, q4) {
                            None => None,
                            Some((_ph, q5)) => {
                                if q5 + 1 > 8 * s.len() {
                                    None
                                } else {
                                    let conf = crate::reader::bit_at(s, q5);
                                    match spec_skip_conformance(s, q5 + 1, conf) {
                                        None => None,
                                        Some(q6) => match spec_read_ue(s, q6) {
                                            None => None,
                                            Some((bdl, q7)) => match spec_read_ue(s, q7) {
                                                None => None,
                                                Some((bdc, _)) => Some(
                                                    HevcSpsInfo {
                                                        general_profile_space: gps,
                                                        general_tier_flag: tier,
                                                        general_profile_idc: idc,
                                                        general_profile_compatibility_flags:
                                                            compat,
                                                        general_constraint_indicator_flags:
                                                            constraints,
                                                        general_level_idc: level,
                                                        chroma_format_idc: chroma as u8,
                                                        bit_depth_luma_minus8: bdl as u8,
                                                        bit_depth_chroma_minus8: bdc as u8,
                                                    },
                                                ),
                                            },
                                        },
                                    }
                                }
                            },
                        },
                    }
                }
            },
        },
    }
}

/// The four conformance-window offsets, when announced.
pub open spec fn spec_skip_conformance(s: Seq<u8>, p: int, flag: bool) -> Option<int> {
    if flag {
        match spec_read_ue(s, p) {
            None => None,
            Some((_, q1)) => match spec_read_ue(s, q1) {
                None => None,
                Some((_, q2)) => match spec_read_ue(s, q2) {
                    None => None,
                    Some((_, q3)) => match spec_read_ue(s, q3) {
                        None => None,
                        Some((_, q4)) => Some(q4),
                    },
                },
            },
        }
    } else {
        Some(p)
    }
}

/// Mirror of the PPS parse: the flag run up to the tiles and entropy
/// flags, which pick the parallelism type.
pub open spec fn spec_parse_hevc_pps(s: Seq<u8>) -> Option<u8> {
    match spec_read_ue(s, 0) {
        None => None,
        Some((_, p1)) => match spec_read_ue(s, p1) {
            None => None,
            Some((_, p2)) => {
                if p2 + 7 > 8 * s.len() {
                    None
                } else {
                    match spec_read_ue(s, p2 + 7) {
                        None => None,
                        Some((_, p3)) => match spec_read_ue(s, p3) {
                            None => None,
                            Some((_, p4)) => match spec_read_se(s, p4) {
                                None => None,
                                Some((_, p5)) => {
                                    if p5 + 3 > 8 * s.len() {
                                        None
                                    } else {
                                        let cu = crate::reader::bit_at(s, p5 + 2);
                                        match (if cu {
                                            spec_read_ue(s, p5 + 3)
                                        } else {
                                            Some((0u64, p5 + 3))
                                        }) {
                                            None => None,
                                            Some((_, p6)) => match spec_read_se(s, p6) {
                                                None => None,
                                                Some((_, p7)) => match spec_read_se(s, p7) {
                                                    None => None,
                                                    Some((_, p8)) => {
                                                        if p8 + 6 > 8 * s.len() {
                                                            None
                                                        } else {
                                                            let tiles = crate::reader::bit_at(
                                                                s,
                                                                p8 + 4,
                                                            );
                                                            let entropy = crate::reader::bit_at(
                                                                s,
                                                                p8 + 5,
                                                            );
                                                            Some(
                                                                if entropy && tiles {
                                                                    0u8
                                                                } else if entropy {
                                                                    3u8
                                                                } else if tiles {
                                                                    2u8
                                                                } else {
                                                                    1u8
                                                                },
                                                            )
                                                        }
                                                    },
                                                },
                                            },
                                        }
                                    }
                                },
                            },
                        },
                    }
                }
            },
        },
    }
}


/// The sub-layer ordering information of the SPS: the presence-flag
/// pairs, the reserved bits, and the per-layer profile and level bytes.
#[verifier::loop_isolation(false)]
#[verifier::rlimit(100)]
#[verifier::spinoff_prover]
fn hevc_sub_layers(bits: &mut BitReader, msl: usize) -> (r: Result<(), HevcError>)
    requires
        old(bits).wf(),
        msl < 8,
    ensures
        final(bits).wf(),
        final(bits).data@ == old(bits).data@,
        ({
            let s = old(bits).data@;
            let p0 = old(bits).bit as int;
            if p0 + 2 * msl > 8 * s.len() {
                r == Err::<(), HevcError>(HevcError::NotEnoughData)
            } else {
                let p1 = p0 + 2 * msl + (if msl > 0 {
                    2 * (8 - msl)
                } else {
                    0int
                });
                if p1 > 8 * s.len() {
                    r == Err::<(), HevcError>(HevcError::NotEnoughData)
                } else {
                    match spec_skip_sub_layers(s, p1, 0, msl as int, p0) {
                        None => r == Err::<(), HevcError>(HevcError::NotEnoughData),
                        Some(pend) => r is Ok && final(bits).bit == pend,
                    }
                }
            }
        }),
{
    let ghost s_bits = bits.data@;
    let ghost p0 = bits.bit as int;
        let mut fp: Vec<bool> = Vec::new();
        let mut fl: Vec<bool> = Vec::new();
        let mut i: usize = 0;
        while i < msl
            invariant
                i <= msl,
                bits.wf(),
                bits.data@ == s_bits,
                bits.bit == p0 + 2 * i,
                fp@.len() == i,
                fl@.len() == i,
                forall|j: int|
                    0 <= j < i ==> #[trigger] fp@[j] == crate::reader::bit_at(s_bits, p0 + 2 * j),
                forall|j: int|
                    0 <= j < i ==> #[trigger] fl@[j] == crate::reader::bit_at(
                        s_bits,
                        p0 + 2 * j + 1,
                    ),
            decreases msl - i,
        {
            let a = match bits.read_bit() {
                Some(b) => b,
                None => {
                    return Err(HevcError::NotEnoughData);
                },
            };
            let b = match bits.read_bit() {
                Some(b) => b,
                None => {
                    return Err(HevcError::NotEnoughData);
                },
            };
            fp.push(a);
            fl.push(b);
            i = i + 1;
        }
        if msl > 0 {
            if !bits.seek_bits(2 * (8 - msl)) {
                return Err(HevcError::NotEnoughData);
            }
        }
        let ghost pstart = bits.bit as int;
        let mut k: usize = 0;
        while k < msl
            invariant
                k <= msl,
                bits.wf(),
                bits.data@ == s_bits,
                match spec_skip_sub_layers(s_bits, bits.bit as int, k as int, msl as int, p0) {
                    Some(pend) => spec_skip_sub_layers(s_bits, pstart, 0, msl as int, p0) == Some(
                        pend,
                    ),
                    None => spec_skip_sub_layers(s_bits, pstart, 0, msl as int, p0) is None,
                },
            decreases msl - k,
        {
            if fp[k] {
                if bits.read_bits(8).is_none() {
                    return Err(HevcError::NotEnoughData);
                }
                if bits.read_bits(4).is_none() {
                    return Err(HevcError::NotEnoughData);
                }
                if bits.read_bits(6).is_none() {
                    return Err(HevcError::NotEnoughData);
                }
            }
            if fl[k] {
                if bits.read_bits(8).is_none() {
                    return Err(HevcError::NotEnoughData);
                }
            }
            k = k + 1;
        }
    Ok(())
}

/// The tail of the HEVC SPS parse: ids, chroma format, picture size and
/// conformance window (validated and discarded), and the bit depths.
#[verifier::rlimit(100)]
#[verifier::spinoff_prover]
fn hevc_sps_tail(
    bits: &mut BitReader,
    gps: u8,
    tier: bool,
    idc: u8,
    compat: u32,
    constraints: u64,
    level: u8,
) -> (r: Result<HevcSpsInfo, HevcError>)
    requires
        old(bits).wf(),
    ensures
        final(bits).wf(),
        match spec_parse_hevc_sps_tail(
            old(bits).data@,
            old(bits).bit as int,
            gps,
            tier,
            idc,
            compat,
            constraints,
            level,
        ) {
            Some(info) => r == Ok::<HevcSpsInfo, HevcError>(info),
            None => r == Err::<HevcSpsInfo, HevcError>(HevcError::NotEnoughData),
        },
{
    if bits.read_ue().is_none() {
        return Err(HevcError::NotEnoughData);
    }
    let chroma = match bits.read_ue() {
        Some(v) => v,
        None => {
            return Err(HevcError::NotEnoughData);
        },
    };
    if chroma == 3 {
        if bits.read_bits(8).is_none() {
            return Err(HevcError::NotEnoughData);
        }
    }
    if bits.read_ue().is_none() {
        return Err(HevcError::NotEnoughData);
    }
    if bits.read_ue().is_none() {
        return Err(HevcError::NotEnoughData);
    }
    let conf = match bits.read_bit() {
        Some(b) => b,
        None => {
            return Err(HevcError::NotEnoughData);
        },
    };
    if conf {
        if bits.read_ue().is_none() {
            return Err(HevcError::NotEnoughData);
        }
        if bits.read_ue().is_none() {
            return Err(HevcError::NotEnoughData);
        }
        if bits.read_ue().is_none() {
            return Err(HevcError::NotEnoughData);
        }
        if bits.read_ue().is_none() {
            return Err(HevcError::NotEnoughData);
        }
    }
    let bdl = match bits.read_ue() {
        Some(v) => v,
        None => {
            return Err(HevcError::NotEnoughData);
        },
    };
    let bdc = match bits.read_ue() {
        Some(v) => v,
        None => {
            return Err(HevcError::NotEnoughData);
        },
    };
    Ok(
        HevcSpsInfo {
            general_profile_space: gps,
            general_tier_flag: tier,
            general_profile_idc: idc,
            general_profile_compatibility_flags: compat,
            general_constraint_indicator_flags: constraints,
            general_level_idc: level,
            chroma_format_idc: chroma as u8,
            bit_depth_luma_minus8: bdl as u8,
            bit_depth_chroma_minus8: bdc as u8,
        },
    )
}

impl HEVCDecoderConfigurationRecord {
    /// Decode the stored VPS: the temporal layer count and nesting flag.
    /// On a malformed payload the record is unchanged.
    pub fn parse_vps(&mut self) -> (r: Result<(), HevcError>)
        requires
            old(self).vps@.len() > 0,
            old(self).vps@[0]@.data.len() < 0x1000_0000,
        ensures
            match spec_parse_hevc_vps(spec_ebsp_to_rbsp(old(self).vps@[0]@.data)) {
                Some((ntl, nested)) => r is Ok && *final(self)
                    == (HEVCDecoderConfigurationRecord {
                    num_temporal_layers: ntl,
                    temporal_id_nested: nested,
                    ..*old(self)
                }),
                None => r == Err::<(), HevcError>(HevcError::NotEnoughData) && *final(self)
                    == *old(self),
            },
    {
        let rbsp = ebsp_to_rbsp(self.vps[0].payload());
        proof {
            crate::codec::nal::lemma_ebsp_len(self.vps@[0]@.data);
        }
        let mut bits = BitReader::new(rbsp);
        if bits.read_bits(4).is_none() {
            return Err(HevcError::NotEnoughData);
        }
        if !bits.seek_bits(2) {
            return Err(HevcError::NotEnoughData);
        }
        if bits.read_bits(6).is_none() {
            return Err(HevcError::NotEnoughData);
        }
        let msl = match bits.read_bits(3) {
            Some(v) => {
                proof {
                    crate::reader::lemma_bits_value_bound(bits.data@, 12, 3);
                    assert(crate::reader::pow2n(3) == 8) by {
                        reveal_with_fuel(crate::reader::pow2n, 4);
                    }
                }
                v
            },
            None => {
                return Err(HevcError::NotEnoughData);
            },
        };
        let nested = match bits.read_bit() {
            Some(b) => b,
            None => {
                return Err(HevcError::NotEnoughData);
            },
        };
        self.num_temporal_layers = (msl + 1) as u8;
        self.temporal_id_nested = nested;
        Ok(())
    }

    /// Decode the stored SPS: the profile, tier, level, compatibility and
    /// constraint fields, the chroma format, and the bit depths.  On a
    /// malformed payload the record is unchanged.
    #[verifier::loop_isolation(false)]
    #[verifier::rlimit(100)]
    #[verifier::spinoff_prover]
    pub fn parse_sps(&mut self) -> (r: Result<(), HevcError>)
        requires
            old(self).sps@.len() > 0,
            old(self).sps@[0]@.data.len() < 0x1000_0000,
        ensures
            match spec_parse_hevc_sps(spec_ebsp_to_rbsp(old(self).sps@[0]@.data)) {
                Some(info) => r is Ok && *final(self) == (HEVCDecoderConfigurationRecord {
                    general_profile_space: info.general_profile_space,
                    general_tier_flag: info.general_tier_flag,
                    general_profile_idc: info.general_profile_idc,
                    general_profile_compatibility_flags:
                        info.general_profile_compatibility_flags,
                    general_constraint_indicator_flags:
                        info.general_constraint_indicator_flags,
                    general_level_idc: info.general_level_idc,
                    chroma_format_idc: info.chroma_format_idc,
                    bit_depth_luma_minus8: info.bit_depth_luma_minus8,
                    bit_depth_chroma_minus8: info.bit_depth_chroma_minus8,
                    ..*old(self)
                }),
                None => r == Err::<(), HevcError>(HevcError::NotEnoughData) && *final(self)
                    == *old(self),
            },
    {
        let rbsp = ebsp_to_rbsp(self.sps[0].payload());
        proof {
            crate::codec::nal::lemma_ebsp_len(self.sps@[0]@.data);
        }
        let mut bits = BitReader::new(rbsp);
        let ghost s_bits = bits.data@;
        if bits.read_bits(4).is_none() {
            return Err(HevcError::NotEnoughData);
        }
        let msl = match bits.read_bits(3) {
            Some(v) => {
                proof {
                    crate::reader::lemma_bits_value_bound(s_bits, 4, 3);
                    assert(crate::reader::pow2n(3) == 8) by {
                        reveal_with_fuel(crate::reader::pow2n, 4);
                    }
                }
                v as usize
            },
            None => {
                return Err(HevcError::NotEnoughData);
            },
        };
        if bits.read_bit().is_none() {
            return Err(HevcError::NotEnoughData);
        }
        let gps = match bits.read_bits(2) {
            Some(v) => {
                proof {
                    crate::reader::lemma_bits_value_bound(s_bits, 8, 2);
                }
                v as u8
            },
            None => {
                return Err(HevcError::NotEnoughData);
            },
        };
        let tier = match bits.read_bit() {
            Some(b) => b,
            None => {
                return Err(HevcError::NotEnoughData);
            },
        };
        let idc = match bits.read_bits(5) {
            Some(v) => {
                proof {
                    crate::reader::lemma_bits_value_bound(s_bits, 11, 5);
                    assert(crate::reader::pow2n(5) == 32) by {
                        reveal_with_fuel(crate::reader::pow2n, 6);
                    }
                }
                v as u8
            },
            None => {
                return Err(HevcError::NotEnoughData);
            },
        };
        let compat = match bits.read_bits(32) {
            Some(v) => {
                proof {
                    crate::reader::lemma_bits_value_bound(s_bits, 16, 32);
                    crate::reader::lemma_pow2n_mono(32, 32);
                    assert(crate::reader::pow2n(32) == 0x1_0000_0000) by {
                        reveal_with_fuel(crate::reader::pow2n, 33);
                    }
                }
                v as u32
            },
            None => {
                return Err(HevcError::NotEnoughData);
            },
        };
        let constraints = match bits.read_bits(48) {
            Some(v) => v,
            None => {
                return Err(HevcError::NotEnoughData);
            },
        };
        let level = match bits.read_bits(8) {
            Some(v) => {
                proof {
                    crate::reader::lemma_bits_value_bound(s_bits, 96, 8);
                    assert(crate::reader::pow2n(8) == 256) by {
                        reveal_with_fuel(crate::reader::pow2n, 9);
                    }
                }
                v as u8
            },
            None => {
                return Err(HevcError::NotEnoughData);
            },
        };
        match hevc_sub_layers(&mut bits, msl) {
            Ok(()) => {},
            Err(e) => {
                return Err(e);
            },
        }
        let info = match hevc_sps_tail(&mut bits, gps, tier, idc, compat, constraints, level) {
            Ok(i) => i,
            Err(e) => {
                return Err(e);
            },
        };
        self.general_profile_space = info.general_profile_space;
        self.general_tier_flag = info.general_tier_flag;
        self.general_profile_idc = info.general_profile_idc;
        self.general_profile_compatibility_flags = info.general_profile_compatibility_flags;
        self.general_constraint_indicator_flags = info.general_constraint_indicator_flags;
        self.general_level_idc = info.general_level_idc;
        self.chroma_format_idc = info.chroma_format_idc;
        self.bit_depth_luma_minus8 = info.bit_depth_luma_minus8;
        self.bit_depth_chroma_minus8 = info.bit_depth_chroma_minus8;
        Ok(())
    }

    /// Decode the stored PPS: the parallelism type, from the tiles and
    /// entropy-coding-sync flags.  On a malformed payload the record is
    /// unchanged.
    pub fn parse_pps(&mut self) -> (r: Result<(), HevcError>)
        requires
            old(self).pps@.len() > 0,
            old(self).pps@[0]@.data.len() < 0x1000_0000,
        ensures
            match spec_parse_hevc_pps(spec_ebsp_to_rbsp(old(self).pps@[0]@.data)) {
                Some(par) => r is Ok && *final(self) == (HEVCDecoderConfigurationRecord {
                    parallelism_type: par,
                    ..*old(self)
                }),
                None => r == Err::<(), HevcError>(HevcError::NotEnoughData) && *final(self)
                    == *old(self),
            },
    {
        let rbsp = ebsp_to_rbsp(self.pps[0].payload());
        proof {
            crate::codec::nal::lemma_ebsp_len(self.pps@[0]@.data);
        }
        let mut bits = BitReader::new(rbsp);
        if bits.read_ue().is_none() {
            return Err(HevcError::NotEnoughData);
        }
        if bits.read_ue().is_none() {
            return Err(HevcError::NotEnoughData);
        }
        if !bits.seek_bits(7) {
            return Err(HevcError::NotEnoughData);
        }
        if bits.read_ue().is_none() {
            return Err(HevcError::NotEnoughData);
        }
        if bits.read_ue().is_none() {
            return Err(HevcError::NotEnoughData);
        }
        if bits.read_se().is_none() {
            return Err(HevcError::NotEnoughData);
        }
        if !bits.seek_bits(2) {
            return Err(HevcError::NotEnoughData);
        }
        let cu = match bits.read_bit() {
            Some(b) => b,
            None => {
                return Err(HevcError::NotEnoughData);
            },
        };
        if cu {
            if bits.read_ue().is_none() {
                return Err(HevcError::NotEnoughData);
            }
        }
        if bits.read_se().is_none() {
            return Err(HevcError::NotEnoughData);
        }
        if bits.read_se().is_none() {
            return Err(HevcError::NotEnoughData);
        }
        if !bits.seek_bits(4) {
            return Err(HevcError::NotEnoughData);
        }
        let tiles = match bits.read_bit() {
            Some(b) => b,
            None => {
                return Err(HevcError::NotEnoughData);
            },
        };
        let entropy = match bits.read_bit() {
            Some(b) => b,
            None => {
                return Err(HevcError::NotEnoughData);
            },
        };
        self.parallelism_type = if entropy && tiles {
            0
        } else if entropy {
            3
        } else if tiles {
            2
        } else {
            1
        };
        Ok(())
    }

    /// Decode the stored parameter sets, SPS first, then VPS, then PPS,
    /// stopping at the first malformed payload.
    pub fn parse(&mut self) -> (r: Result<(), HevcError>)
        requires
            old(self).vps@.len() > 0,
            old(self).sps@.len() > 0,
            old(self).pps@.len() > 0,
            old(self).vps@[0]@.data.len() < 0x1000_0000,
            old(self).sps@[0]@.data.len() < 0x1000_0000,
            old(self).pps@[0]@.data.len() < 0x1000_0000,
        ensures
            r is Ok <==> (spec_parse_hevc_sps(spec_ebsp_to_rbsp(old(self).sps@[0]@.data)) is Some
                && spec_parse_hevc_vps(spec_ebsp_to_rbsp(old(self).vps@[0]@.data)) is Some
                && spec_parse_hevc_pps(spec_ebsp_to_rbsp(old(self).pps@[0]@.data)) is Some),
            r is Err ==> r == Err::<(), HevcError>(HevcError::NotEnoughData),
            r is Ok ==> {
                let sps_info = spec_parse_hevc_sps(
                    spec_ebsp_to_rbsp(old(self).sps@[0]@.data),
                )->Some_0;
                *final(self) == (HEVCDecoderConfigurationRecord {
                    general_profile_space: sps_info.general_profile_space,
                    general_tier_flag: sps_info.general_tier_flag,
                    general_profile_idc: sps_info.general_profile_idc,
                    general_profile_compatibility_flags:
                        sps_info.general_profile_compatibility_flags,
                    general_constraint_indicator_flags:
                        sps_info.general_constraint_indicator_flags,
                    general_level_idc: sps_info.general_level_idc,
                    chroma_format_idc: sps_info.chroma_format_idc,
                    bit_depth_luma_minus8: sps_info.bit_depth_luma_minus8,
                    bit_depth_chroma_minus8: sps_info.bit_depth_chroma_minus8,
                    num_temporal_layers: spec_parse_hevc_vps(
                        spec_ebsp_to_rbsp(old(self).vps@[0]@.data),
                    )->Some_0.0,
                    temporal_id_nested: spec_parse_hevc_vps(
                        spec_ebsp_to_rbsp(old(self).vps@[0]@.data),
                    )->Some_0.1,
                    parallelism_type: spec_parse_hevc_pps(
                        spec_ebsp_to_rbsp(old(self).pps@[0]@.data),
                    )->Some_0,
                    ..*old(self)
                })
            },
    {
        match self.parse_sps() {
            Ok(()) => {},
            Err(e) => {
                return Err(e);
            },
        }
        match self.parse_vps() {
            Ok(()) => {},
            Err(e) => {
                return Err(e);
            },
        }
        match self.parse_pps() {
            Ok(()) => {},
            Err(e) => {
                return Err(e);
            },
        }
        Ok(())
    }
}

} // verus!
