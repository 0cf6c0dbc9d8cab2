//! H.264: NAL unit tagging, the AVCDecoderConfigurationRecord, and the
//! SPS dimension parse.

use vstd::prelude::*;
use crate::codec::nal::{ebsp_to_rbsp, spec_ebsp_to_rbsp};
use crate::reader::{
    spec_first_one, spec_read_be, spec_read_u8, spec_read_ue, spec_read_se, BitReader, Cursor,
};

verus! {

/// Why an AVC parse failed.
#[derive(Clone, Copy, PartialEq, Eq, Debug, Structural)]
pub enum AvcError {
    NotEnoughData,
    UnsupportedConfigurationRecordVersion(u8),
}

/// The NAL unit kinds the pipeline distinguishes.
#[derive(Clone, Copy, PartialEq, Eq, Debug, Structural)]
pub enum UnitType {
    NonIdrPicture,
    IdrPicture,
    Sei,
    Sps,
    Pps,
    AccessUnitDelimiter,
    Other(u8),
}

/// The kind denoted by a five-bit NAL unit type value.
pub open spec fn spec_unit_type_from(v: u8) -> UnitType {
    if v == 1 {
        UnitType::NonIdrPicture
    } else if v == 5 {
        UnitType::IdrPicture
    } else if v == 6 {
        UnitType::Sei
    } else if v == 7 {
        UnitType::Sps
    } else if v == 8 {
        UnitType::Pps
    } else if v == 9 {
        UnitType::AccessUnitDelimiter
    } else {
        UnitType::Other(v)
    }
}

/// The five-bit value of a kind.
pub open spec fn spec_unit_type_value(t: UnitType) -> u8 {
    match t {
        UnitType::NonIdrPicture => 1,
        UnitType::IdrPicture => 5,
        UnitType::Sei => 6,
        UnitType::Sps => 7,
        UnitType::Pps => 8,
        UnitType::AccessUnitDelimiter => 9,
        UnitType::Other(v) => v,
    }
}

impl From<u8> for UnitType {
    fn from(v: u8) -> (r: Self)
        ensures
            r == spec_unit_type_from(v),
    {
        match v {
            1 => UnitType::NonIdrPicture,
            5 => UnitType::IdrPicture,
            6 => UnitType::Sei,
            7 => UnitType::Sps,
            8 => UnitType::Pps,
            9 => UnitType::AccessUnitDelimiter,
            _ => UnitType::Other(v),
        }
    }
}

impl vstd::std_specs::convert::FromSpecImpl<u8> for UnitType {
    open spec fn obeys_from_spec() -> bool {
        true
    }

    open spec fn from_spec(v: u8) -> UnitType {
        spec_unit_type_from(v)
    }
}

/// One H.264 NAL unit: its priority bits, kind, and payload (the bytes
/// after the one-byte header, still emulation-protected).
#[derive(Clone, Debug)]
pub struct Unit {
    pub ref_idc: u8,
    pub kind: UnitType,
    pub data: Vec<u8>,
}

/// Specification view of a `Unit`.
#[verifier::ext_equal]
pub struct UnitView {
    pub ref_idc: u8,
    pub kind: UnitType,
    pub data: Seq<u8>,
}

impl View for Unit {
    type V = UnitView;

    open spec fn view(&self) -> UnitView {
        UnitView { ref_idc: self.ref_idc, kind: self.kind, data: self.data@ }
    }
}

impl UnitView {
    /// The header byte and kind are canonical.
    pub open spec fn wf(self) -> bool {
        &&& self.ref_idc < 4
        &&& spec_unit_type_value(self.kind) < 32
        &&& spec_unit_type_from(spec_unit_type_value(self.kind)) == self.kind
    }
}

/// The serialized unit: one header byte then the payload.
pub open spec fn spec_unit_bytes(u: UnitView) -> Seq<u8> {
    seq![(u.ref_idc * 32 + spec_unit_type_value(u.kind)) as u8] + u.data
}

/// The unit parsed from raw bytes: header byte, then payload.
pub open spec fn spec_parse_unit(s: Seq<u8>) -> Result<UnitView, AvcError> {
    if s.len() < 1 {
        Err(AvcError::NotEnoughData)
    } else {
        Ok(
            UnitView {
                ref_idc: ((s[0] / 32) % 4) as u8,
                kind: spec_unit_type_from((s[0] % 32) as u8),
                data: s.skip(1),
            },
        )
    }
}

/// Parsing undoes serialization on well-formed units.
pub proof fn lemma_unit_round_trip(u: UnitView)
    requires
        u.wf(),
    ensures
        spec_parse_unit(spec_unit_bytes(u)) == Ok::<UnitView, AvcError>(u),
{
    let s = spec_unit_bytes(u);
    assert(s[0] == u.ref_idc * 32 + spec_unit_type_value(u.kind));
    assert(s.skip(1) =~= u.data);
    assert((s[0] / 32) % 4 == u.ref_idc);
    assert(s[0] % 32 == spec_unit_type_value(u.kind));
}

impl Unit {
    /// Parse one unit from its raw bytes.
    pub fn try_from_bytes(bytes: &Vec<u8>) -> (r: Result<Unit, AvcError>)
        ensures
            match spec_parse_unit(bytes@) {
                Ok(u) => r matches Ok(unit) && unit@ == u && unit@.wf(),
                Err(e) => r == Err::<Unit, AvcError>(e),
            },
    {
        if bytes.len() < 1 {
            return Err(AvcError::NotEnoughData);
        }
        let b = bytes[0];
        let mut data: Vec<u8> = Vec::new();
        let mut i: usize = 1;
        proof {
            assert(data@ =~= bytes@.subrange(1, 1));
        }
        let n = bytes.len();
        while i < n
            invariant
                1 <= i <= n,
                n == bytes@.len(),
                data@ == bytes@.subrange(1, i as int),
            decreases n - i,
        {
            let x = bytes[i];
            data.push(x);
            proof {
                assert(bytes@.subrange(1, i + 1) =~= bytes@.subrange(1, i as int).push(x));
            }
            i = i + 1;
        }
        proof {
            assert(bytes@.subrange(1, bytes@.len() as int) =~= bytes@.skip(1));
        }
        Ok(Unit { ref_idc: (b / 32) % 4, kind: UnitType::from(b % 32), data })
    }

    /// The payload after the header byte.
    pub fn payload(&self) -> (r: &Vec<u8>)
        ensures
            r@ == self@.data,
    {
        &self.data
    }

    /// Serialize the unit: header byte then payload.
    pub fn to_bytes(&self) -> (r: Vec<u8>)
        requires
            self@.wf(),
        ensures
            r@ == spec_unit_bytes(self@),
    {
        let mut out: Vec<u8> = Vec::new();
        let kind_value = match self.kind {
            UnitType::NonIdrPicture => 1,
            UnitType::IdrPicture => 5,
            UnitType::Sei => 6,
            UnitType::Sps => 7,
            UnitType::Pps => 8,
            UnitType::AccessUnitDelimiter => 9,
            UnitType::Other(v) => v,
        };
        out.push(self.ref_idc * 32 + kind_value);
        let mut i: usize = 0;
        let n = self.data.len();
        proof {
            assert(out@ =~= spec_unit_bytes(self@).subrange(0, 1));
        }
        while i < n
            invariant
                i <= n,
                n == self.data@.len(),
                out@ == spec_unit_bytes(self@).subrange(0, 1 + i as int),
                spec_unit_bytes(self@).len() == 1 + n,
            decreases n - i,
        {
            let x = self.data[i];
            out.push(x);
            proof {
                assert(spec_unit_bytes(self@).subrange(0, 1 + i + 1) =~= spec_unit_bytes(
                    self@,
                ).subrange(0, 1 + i as int).push(x));
            }
            i = i + 1;
        }
        proof {
            assert(spec_unit_bytes(self@).subrange(0, 1 + n as int) =~= spec_unit_bytes(self@));
        }
        out
    }
}

/// The views of a unit list.
pub open spec fn unit_views(s: Seq<Unit>) -> Seq<UnitView> {
    s.map_values(|u: Unit| u@)
}

/// Color description from the SPS VUI block.
#[derive(Clone, Copy, PartialEq, Eq, Debug, Structural)]
pub struct ColorConfig {
    pub full_range: bool,
    pub color_primaries: u8,
    pub transfer_characteristics: u8,
    pub matrix_coefficients: u8,
}

/// The extended AVC configuration block (ISO/IEC 14496-15).
#[derive(Clone, Copy, PartialEq, Eq, Debug, Structural)]
pub struct AvccExtendedConfig {
    pub chroma_format: u8,
    pub bit_depth_luma_minus8: u8,
    pub bit_depth_chroma_minus8: u8,
}

/// The AVCDecoderConfigurationRecord: profile and level, the NAL length
/// prefix size, and the parameter-set lists.
#[derive(Clone, Debug)]
pub struct DecoderConfigurationRecord {
    pub version: u8,
    pub profile_indication: u8,
    pub profile_compatability: u8,
    pub level_indication: u8,
    pub nalu_size: u8,
    pub sps: Vec<Unit>,
    pub pps: Vec<Unit>,
    pub color_config: Option<ColorConfig>,
    pub width: u32,
    pub height: u32,
}

impl Default for DecoderConfigurationRecord {
    fn default() -> (r: Self)
        ensures
            r.version == 1,
            r.profile_indication == 0,
            r.profile_compatability == 0,
            r.level_indication == 0,
            r.nalu_size == 4,
            r.sps@.len() == 0,
            r.pps@.len() == 0,
            r.color_config is None,
            r.width == 0,
            r.height == 0,
    {
        Self {
            version: 1u8,
            profile_indication: 0u8,
            profile_compatability: 0u8,
            level_indication: 0u8,
            nalu_size: 4u8,
            sps: Vec::new(),
            pps: Vec::new(),
            color_config: None,
            width: 0,
            height: 0,
        }
    }
}

/// The serialized parameter-set list: a two-byte length then the unit
/// bytes, for each unit in order.
pub open spec fn spec_mux_units(units: Seq<UnitView>) -> Seq<u8>
    decreases units.len(),
{
    if units.len() == 0 {
        Seq::empty()
    } else {
        seq![
            (spec_unit_bytes(units[0]).len() / 256) as u8,
            (spec_unit_bytes(units[0]).len() % 256) as u8,
        ] + spec_unit_bytes(units[0]) + spec_mux_units(units.drop_first())
    }
}

/// The serialized configuration record: version, profile, compatibility,
/// level, a reserved byte declaring 4-byte NAL lengths, then every SPS
/// (five-bit count, each with a length) and every PPS (one-byte count).
pub open spec fn spec_mux_dcr(dcr: DecoderConfigurationRecord) -> Seq<u8> {
    seq![
        dcr.version,
        dcr.profile_indication,
        dcr.profile_compatability,
        dcr.level_indication,
        0xFFu8,
        (0xE0 + dcr.sps@.len()) as u8,
    ] + spec_mux_units(unit_views(dcr.sps@)) + seq![dcr.pps@.len() as u8] + spec_mux_units(
        unit_views(dcr.pps@),
    )
}

impl DecoderConfigurationRecord {
    /// Both parameter-set lists are populated.
    pub fn ready(&self) -> (r: bool)
        ensures
            r == (self.sps@.len() > 0 && self.pps@.len() > 0),
    {
        self.sps.len() > 0 && self.pps.len() > 0
    }

    /// The size in bytes of the serialized record.
    pub open spec fn spec_size(self) -> int {
        6 + spec_units_size(self.sps@) + 1 + spec_units_size(self.pps@)
    }

    /// Serialized size: the fixed header, then two length bytes and the
    /// payload for each parameter set.
    pub fn size(&self) -> (r: u64)
        requires
            self.spec_size() <= u64::MAX,
        ensures
            r == self.spec_size(),
    {
        let mut total: u64 = 6;
        proof {
            lemma_units_size_nonneg(self.sps@);
            lemma_units_size_nonneg(self.pps@);
        }
        total = total + units_size(&self.sps);
        total = total + 1;
        total = total + units_size(&self.pps);
        total
    }
}

/// Two length bytes plus the payload length, for each unit in the list.
pub open spec fn spec_units_size(s: Seq<Unit>) -> int
    decreases s.len(),
{
    if s.len() == 0 {
        0
    } else {
        spec_units_size(s.drop_last()) + 2 + s.last()@.data.len()
    }
}

pub proof fn lemma_units_size_nonneg(s: Seq<Unit>)
    ensures
        spec_units_size(s) >= 0,
    decreases s.len(),
{
    if s.len() > 0 {
        lemma_units_size_nonneg(s.drop_last());
    }
}

/// Sum the serialized sizes of a parameter-set list.
fn units_size(units: &Vec<Unit>) -> (r: u64)
    requires
        spec_units_size(units@) <= u64::MAX,
    ensures
        r == spec_units_size(units@),
{
    let mut total: u64 = 0;
    let mut i: usize = 0;
    proof {
        assert(units@.subrange(0, 0) =~= Seq::<Unit>::empty());
    }
    while i < units.len()
        invariant
            i <= units@.len(),
            total == spec_units_size(units@.subrange(0, i as int)),
            spec_units_size(units@) <= u64::MAX,
        decreases units@.len() - i,
    {
        proof {
            assert(units@.subrange(0, i + 1).drop_last() =~= units@.subrange(0, i as int));
            assert(units@.subrange(0, i + 1).last() == units@[i as int]);
            lemma_units_size_prefix(units@, i + 1);
            lemma_units_size_nonneg(units@.subrange(0, i as int));
        }
        let len = units[i].data.len();
        if len as u64 > u64::MAX - 2 - total {
            proof {
                assert(false);
            }
        }
        total = total + 2 + len as u64;
        i = i + 1;
    }
    proof {
        assert(units@.subrange(0, units@.len() as int) =~= units@);
    }
    total
}

/// Mirror of a parameter-set list parse: `n` entries, each a two-byte
/// length and the unit bytes.
pub open spec fn spec_parse_units(s: Seq<u8>, pos: int, n: int) -> Result<
    (Seq<UnitView>, int),
    AvcError,
>
    decreases n,
{
    if n <= 0 {
        Ok((Seq::empty(), pos))
    } else {
        match spec_read_be(s, pos, 2) {
            None => Err(AvcError::NotEnoughData),
            Some((l, p1)) => {
                if p1 + l > s.len() {
                    Err(AvcError::NotEnoughData)
                } else {
                    match spec_parse_unit(s.subrange(p1, p1 + l)) {
                        Err(e) => Err(e),
                        Ok(u) => match spec_parse_units(s, p1 + l, n - 1) {
                            Err(e) => Err(e),
                            Ok((rest, pend)) => Ok((seq![u] + rest, pend)),
                        },
                    }
                }
            },
        }
    }
}

/// Mirror of the extended-configuration walk: absent when the record ends
/// here, otherwise chroma format, both bit depths, and the SPS extension
/// list, which is validated and discarded.
pub open spec fn spec_parse_ext(s: Seq<u8>, pos: int) -> Result<
    (Option<AvccExtendedConfig>, int),
    AvcError,
> {
    if pos >= s.len() {
        Ok((None, pos))
    } else {
        match spec_read_u8(s, pos) {
            None => Err(AvcError::NotEnoughData),
            Some((b0, p1)) => match spec_read_u8(s, p1) {
                None => Err(AvcError::NotEnoughData),
                Some((b1, p2)) => match spec_read_u8(s, p2) {
                    None => Err(AvcError::NotEnoughData),
                    Some((b2, p3)) => match spec_read_u8(s, p3) {
                        None => Err(AvcError::NotEnoughData),
                        Some((n_ext, p4)) => match spec_skip_ext(s, p4, n_ext as int) {
                            Err(e) => Err(e),
                            Ok(pend) => Ok(
                                (
                                    Some(
                                        AvccExtendedConfig {
                                            chroma_format: (b0 % 4) as u8,
                                            bit_depth_luma_minus8: (b1 % 8) as u8,
                                            bit_depth_chroma_minus8: (b2 % 8) as u8,
                                        },
                                    ),
                                    pend,
                                ),
                            ),
                        },
                    },
                },
            },
        }
    }
}

/// Mirror of the SPS-extension skip loop.
pub open spec fn spec_skip_ext(s: Seq<u8>, pos: int, n: int) -> Result<int, AvcError>
    decreases n,
{
    if n <= 0 {
        Ok(pos)
    } else {
        match spec_read_be(s, pos, 2) {
            None => Err(AvcError::NotEnoughData),
            Some((l, p1)) => {
                if p1 + l > s.len() {
                    Err(AvcError::NotEnoughData)
                } else {
                    spec_skip_ext(s, p1 + l, n - 1)
                }
            },
        }
    }
}

/// What a record parse yields, before the derived fields are filled in.
#[verifier::ext_equal]
pub struct DcrParse {
    pub version: u8,
    pub profile_indication: u8,
    pub profile_compatability: u8,
    pub level_indication: u8,
    pub nalu_size: u8,
    pub sps: Seq<UnitView>,
    pub pps: Seq<UnitView>,
    pub extended: Option<AvccExtendedConfig>,
}

/// Mirror of the record parse: version one, the profile bytes, the NAL
/// length size, both parameter-set lists, and the extended block for
/// profiles outside 66, 77 and 88.
pub open spec fn spec_parse_dcr(s: Seq<u8>) -> Result<DcrParse, AvcError> {
    if s.len() < 7 {
        Err(AvcError::NotEnoughData)
    } else {
        let version = s[0];
        if version != 1 {
            Err(AvcError::UnsupportedConfigurationRecordVersion(version))
        } else {
            let profile_indication = s[1];
            let profile_compatability = s[2];
            let level_indication = s[3];
            let nalu_size = (s[4] % 4 + 1) as u8;
            let sps_count = s[5] % 32;
            match spec_parse_units(s, 6, sps_count as int) {
                Err(e) => Err(e),
                Ok((sps, p1)) => match spec_read_u8(s, p1) {
                    None => Err(AvcError::NotEnoughData),
                    Some((pps_count, p2)) => match spec_parse_units(s, p2, pps_count as int) {
                        Err(e) => Err(e),
                        Ok((pps, p3)) => {
                            let ext = if profile_indication == 66 || profile_indication == 77
                                || profile_indication == 88 {
                                Ok((None::<AvccExtendedConfig>, p3))
                            } else {
                                spec_parse_ext(s, p3)
                            };
                            match ext {
                                Err(e) => Err(e),
                                Ok((extended, _)) => Ok(
                                    DcrParse {
                                        version,
                                        profile_indication,
                                        profile_compatability,
                                        level_indication,
                                        nalu_size,
                                        sps,
                                        pps,
                                        extended,
                                    },
                                ),
                            }
                        },
                    },
                },
            }
        }
    }
}

impl DecoderConfigurationRecord {
    /// Serialize the record, appending to `out`: every parameter set is
    /// written, with the five-bit SPS count and the one-byte PPS count.
    pub fn mux(&self, out: &mut Vec<u8>)
        requires
            1 <= self.sps@.len() <= 31,
            1 <= self.pps@.len() <= 255,
            forall|i: int| 0 <= i < self.sps@.len() ==> (#[trigger] self.sps@[i])@.wf(),
            forall|i: int| 0 <= i < self.pps@.len() ==> (#[trigger] self.pps@[i])@.wf(),
            forall|i: int|
                0 <= i < self.sps@.len() ==> (#[trigger] self.sps@[i])@.data.len() + 1 <= 65535,
            forall|i: int|
                0 <= i < self.pps@.len() ==> (#[trigger] self.pps@[i])@.data.len() + 1 <= 65535,
        ensures
            final(out)@ == old(out)@ + spec_mux_dcr(*self),
    {
        let ghost base = out@;
        out.push(self.version);
        out.push(self.profile_indication);
        out.push(self.profile_compatability);
        out.push(self.level_indication);
        out.push(0xFF);
        out.push(0xE0 + self.sps.len() as u8);
        mux_units(out, &self.sps);
        out.push(self.pps.len() as u8);
        mux_units(out, &self.pps);
        proof {
            assert(out@ =~= base + spec_mux_dcr(*self));
        }
    }

    /// Parse a record from raw bytes.  The derived fields (color config,
    /// width, height) start empty and are filled by `parse`.
    #[verifier::rlimit(100)]
    #[verifier::spinoff_prover]
    #[verifier::loop_isolation(false)]
    pub fn try_from_bytes(bytes: &Vec<u8>) -> (r: Result<Self, AvcError>)
        ensures
            match spec_parse_dcr(bytes@) {
                Ok(p) => r matches Ok(dcr) && dcr.version == p.version && dcr.profile_indication
                    == p.profile_indication && dcr.profile_compatability == p.profile_compatability
                    && dcr.level_indication == p.level_indication && dcr.nalu_size == p.nalu_size
                    && unit_views(dcr.sps@) == p.sps && unit_views(dcr.pps@) == p.pps
                    && dcr.color_config is None && dcr.width == 0 && dcr.height == 0,
                Err(e) => r == Err::<Self, AvcError>(e),
            },
    {
        if bytes.len() < 7 {
            return Err(AvcError::NotEnoughData);
        }
        let version = bytes[0];
        if version != 1 {
            return Err(AvcError::UnsupportedConfigurationRecordVersion(version));
        }
        let profile_indication = bytes[1];
        let profile_compatability = bytes[2];
        let level_indication = bytes[3];
        let nalu_size = bytes[4] % 4 + 1;
        let sps_count = bytes[5] % 32;
        let mut reader = Cursor::new(bytes);
        let skipped = reader.skip(6);
        proof {
            assert(skipped);
        }
        let sps = match Self::read_units(&mut reader, sps_count as usize) {
            Ok(u) => u,
            Err(e) => {
                return Err(e);
            },
        };
        let pps_count = match reader.read_u8() {
            Some(b) => b,
            None => {
                return Err(AvcError::NotEnoughData);
            },
        };
        let pps = match Self::read_units(&mut reader, pps_count as usize) {
            Ok(u) => u,
            Err(e) => {
                return Err(e);
            },
        };
        if !(profile_indication == 66 || profile_indication == 77 || profile_indication == 88) {
            if reader.remaining() > 0 {
                let _b0 = match reader.read_u8() {
                    Some(b) => b,
                    None => {
                        return Err(AvcError::NotEnoughData);
                    },
                };
                let _b1 = match reader.read_u8() {
                    Some(b) => b,
                    None => {
                        return Err(AvcError::NotEnoughData);
                    },
                };
                let _b2 = match reader.read_u8() {
                    Some(b) => b,
                    None => {
                        return Err(AvcError::NotEnoughData);
                    },
                };
                let n_ext = match reader.read_u8() {
                    Some(b) => b,
                    None => {
                        return Err(AvcError::NotEnoughData);
                    },
                };
                let mut j: usize = 0;
                let ghost s = reader.data@;
                let ghost ext0 = reader.pos as int;
                while j < n_ext as usize
                    invariant
                        j <= n_ext,
                        reader.wf(),
                        reader.data@ == bytes@,
                        reader.data@ == s,
                        match spec_skip_ext(s, reader.pos as int, n_ext - j) {
                            Ok(pend) => spec_skip_ext(s, ext0, n_ext as int) is Ok,
                            Err(e) => spec_skip_ext(s, ext0, n_ext as int) == Err::<
                                int,
                                AvcError,
                            >(e),
                        },
                    decreases n_ext - j,
                {
                    let ghost hp = reader.pos as int;
                    let l = match reader.read_be(2) {
                        Some(v) => {
                            proof {
                                crate::reader::lemma_be_value_bound(s.subrange(hp, hp + 2));
                                assert(crate::reader::pow256(2) == 65536) by {
                                    reveal_with_fuel(crate::reader::pow256, 3);
                                }
                            }
                            v as usize
                        },
                        None => {
                            return Err(AvcError::NotEnoughData);
                        },
                    };
                    if !reader.skip(l) {
                        return Err(AvcError::NotEnoughData);
                    }
                    j = j + 1;
                }
            }
        }
        Ok(
            DecoderConfigurationRecord {
                version,
                profile_indication,
                profile_compatability,
                level_indication,
                nalu_size,
                sps,
                pps,
                color_config: None,
                width: 0,
                height: 0,
            },
        )
    }

    /// Read `n` length-prefixed parameter sets.
    #[verifier::rlimit(60)]
    #[verifier::loop_isolation(false)]
    fn read_units(reader: &mut Cursor, n: usize) -> (r: Result<Vec<Unit>, AvcError>)
        requires
            old(reader).wf(),
        ensures
            final(reader).data == old(reader).data,
            final(reader).wf(),
            match spec_parse_units(old(reader).data@, old(reader).pos as int, n as int) {
                Ok((views, pend)) => r matches Ok(units) && unit_views(units@) == views && (forall|
                    i: int,
                |
                    0 <= i < units@.len() ==> (#[trigger] units@[i])@.wf()) && final(reader).pos
                    == pend,
                Err(e) => r == Err::<Vec<Unit>, AvcError>(e),
            },
    {
        let ghost s = reader.data@;
        let ghost pos0 = reader.pos as int;
        let mut units: Vec<Unit> = Vec::new();
        let mut i: usize = 0;
        proof {
            assert(unit_views(units@) =~= Seq::<UnitView>::empty());
            match spec_parse_units(s, reader.pos as int, n as int) {
                Ok((rest, pend)) => {
                    assert(unit_views(units@) + rest =~= rest);
                },
                Err(_) => {},
            }
        }
        while i < n
            invariant
                i <= n,
                reader.wf(),
                reader.data == old(reader).data,
                reader.data@ == s,
                units@.len() == i,
                forall|k: int| 0 <= k < units@.len() ==> (#[trigger] units@[k])@.wf(),
                match spec_parse_units(s, reader.pos as int, (n - i) as int) {
                    Ok((rest, pend)) => spec_parse_units(s, pos0, n as int) matches Ok(full)
                        && full.0 == unit_views(units@) + rest && full.1 == pend,
                    Err(e) => spec_parse_units(s, pos0, n as int) == Err::<
                        (Seq<UnitView>, int),
                        AvcError,
                    >(e),
                },
            decreases n - i,
        {
            let ghost m = (n - i) as int;
            let ghost head_pos = reader.pos as int;
            let l = match reader.read_be(2) {
                Some(v) => {
                    proof {
                        crate::reader::lemma_be_value_bound(
                            s.subrange(head_pos, head_pos + 2),
                        );
                        assert(crate::reader::pow256(2) == 65536) by {
                            reveal_with_fuel(crate::reader::pow256, 3);
                        }
                    }
                    v as usize
                },
                None => {
                    proof {
                        assert(spec_parse_units(s, head_pos, m) == Err::<
                            (Seq<UnitView>, int),
                            AvcError,
                        >(AvcError::NotEnoughData));
                        assert(spec_parse_units(s, pos0, n as int) == Err::<
                            (Seq<UnitView>, int),
                            AvcError,
                        >(AvcError::NotEnoughData));
                    }
                    return Err(AvcError::NotEnoughData);
                },
            };
            if l > reader.remaining() {
                proof {
                    assert(spec_parse_units(s, head_pos, m) == Err::<
                        (Seq<UnitView>, int),
                        AvcError,
                    >(AvcError::NotEnoughData));
                    assert(spec_parse_units(s, pos0, n as int) == Err::<
                        (Seq<UnitView>, int),
                        AvcError,
                    >(AvcError::NotEnoughData));
                }
                return Err(AvcError::NotEnoughData);
            }
            let ghost upos = reader.pos as int;
            let span = crate::ts::demuxer::copy_range(reader.data, reader.pos, l);
            let skipped = reader.skip(l);
            proof {
                assert(skipped);
            }
            let unit = match Unit::try_from_bytes(&span) {
                Ok(u) => u,
                Err(e) => {
                    return Err(e);
                },
            };
            proof {
                let m = (n - i) as int;
                match spec_parse_units(s, reader.pos as int, m - 1) {
                    Ok((rest, pend)) => {
                        assert(unit_views(units@.push(unit)) =~= unit_views(units@).push(unit@));
                        assert(unit_views(units@) + (seq![unit@] + rest) =~= unit_views(
                            units@.push(unit),
                        ) + rest);
                    },
                    Err(_) => {},
                }
            }
            units.push(unit);
            i = i + 1;
        }
        proof {
            assert(unit_views(units@) + Seq::<UnitView>::empty() =~= unit_views(units@));
        }
        Ok(units)
    }
}

/// Skip `n` signed Exp-Golomb codes.
pub open spec fn spec_skip_se_n(s: Seq<u8>, p: int, n: int) -> Option<int>
    decreases n,
{
    if n <= 0 {
        Some(p)
    } else {
        match spec_read_se(s, p) {
            None => None,
            Some((_, p1)) => spec_skip_se_n(s, p1, n - 1),
        }
    }
}

/// What the SPS parse derives.
#[verifier::ext_equal]
pub struct SpsInfo {
    pub profile_indication: u8,
    pub profile_compatability: u8,
    pub level_indication: u8,
    pub width: u32,
    pub height: u32,
}

/// Mirror of the picture-order-count block of the SPS.
pub open spec fn spec_sps_poc(s: Seq<u8>, p: int, poc_type: u64) -> Option<int> {
    if poc_type == 0 {
        match spec_read_ue(s, p) {
            None => None,
            Some((_, p1)) => Some(p1),
        }
    } else if poc_type == 1 {
        if p + 1 > 8 * s.len() {
            None
        } else {
            match spec_read_se(s, p + 1) {
                None => None,
                Some((_, p1)) => match spec_read_se(s, p1) {
                    None => None,
                    Some((_, p2)) => match spec_read_ue(s, p2) {
                        None => None,
                        Some((cycle, p3)) => spec_skip_se_n(s, p3, cycle as int),
                    },
                },
            }
        }
    } else {
        Some(p)
    }
}

/// Mirror of the frame-cropping block: four offsets, or none.
pub open spec fn spec_sps_crop(s: Seq<u8>, p: int, flag: bool) -> Option<
    (u64, u64, u64, u64, int),
> {
    if flag {
        match spec_read_ue(s, p) {
            None => None,
            Some((l, p1)) => match spec_read_ue(s, p1) {
                None => None,
                Some((r, p2)) => match spec_read_ue(s, p2) {
                    None => None,
                    Some((t, p3)) => match spec_read_ue(s, p3) {
                        None => None,
                        Some((b, p4)) => Some((l, r, t, b, p4)),
                    },
                },
            },
        }
    } else {
        Some((0, 0, 0, 0, p))
    }
}

/// Mirror of the VUI block, which the parse validates and discards:
/// aspect ratio, overscan, video signal and colour description, chroma
/// location, and timing information.
pub open spec fn spec_sps_vui(s: Seq<u8>, p: int) -> Option<int> {
    match spec_read_ue_flagged(s, p) {
        None => None,
        Some(p1) => match spec_vui_video_signal(s, p1) {
            None => None,
            Some(p2) => match spec_vui_chroma_loc(s, p2) {
                None => None,
                Some(p3) => spec_vui_timing(s, p3),
            },
        },
    }
}

/// Aspect-ratio then overscan flags of the VUI.
pub open spec fn spec_read_ue_flagged(s: Seq<u8>, p: int) -> Option<int> {
    if p + 1 > 8 * s.len() {
        None
    } else {
        let aspect_flag = crate::reader::bit_at(s, p);
        let after_aspect = if aspect_flag {
            if p + 1 + 8 > 8 * s.len() {
                None
            } else {
                let idc = crate::reader::bits_value(s, p + 1, 8);
                if idc == 255 {
                    if p + 9 + 32 > 8 * s.len() {
                        None
                    } else {
                        Some(p + 9 + 32)
                    }
                } else {
                    Some(p + 9)
                }
            }
        } else {
            Some(p + 1)
        };
        match after_aspect {
            None => None,
            Some(p1) => {
                if p1 + 1 > 8 * s.len() {
                    None
                } else {
                    if crate::reader::bit_at(s, p1) {
                        if p1 + 2 > 8 * s.len() {
                            None
                        } else {
                            Some(p1 + 2)
                        }
                    } else {
                        Some(p1 + 1)
                    }
                }
            },
        }
    }
}

/// Video-signal-type block of the VUI.
pub open spec fn spec_vui_video_signal(s: Seq<u8>, p: int) -> Option<int> {
    if p + 1 > 8 * s.len() {
        None
    } else if crate::reader::bit_at(s, p) {
        if p + 1 + 4 + 1 > 8 * s.len() {
            None
        } else if crate::reader::bit_at(s, p + 5) {
            if p + 6 + 24 > 8 * s.len() {
                None
            } else {
                Some(p + 30)
            }
        } else {
            Some(p + 6)
        }
    } else {
        Some(p + 1)
    }
}

/// Chroma-location block of the VUI.
pub open spec fn spec_vui_chroma_loc(s: Seq<u8>, p: int) -> Option<int> {
    if p + 1 > 8 * s.len() {
        None
    } else if crate::reader::bit_at(s, p) {
        match spec_read_ue(s, p + 1) {
            None => None,
            Some((_, p1)) => match spec_read_ue(s, p1) {
                None => None,
                Some((_, p2)) => Some(p2),
            },
        }
    } else {
        Some(p + 1)
    }
}

/// Timing block of the VUI.
pub open spec fn spec_vui_timing(s: Seq<u8>, p: int) -> Option<int> {
    if p + 1 > 8 * s.len() {
        None
    } else if crate::reader::bit_at(s, p) {
        if p + 1 + 32 + 32 + 1 > 8 * s.len() {
            None
        } else {
            Some(p + 66)
        }
    } else {
        Some(p + 1)
    }
}

/// Mirror of the SPS parse over the unescaped payload: profile and level,
/// the header fields, the picture size in macroblocks, the cropping
/// offsets, and the VUI.  The derived size is the cropped luma size with
/// the 4:2:0 cropping units the stream declares; a crop larger than the
/// picture, or a size beyond 32 bits, is rejected.
#[verifier::opaque]
pub open spec fn spec_parse_sps(s: Seq<u8>) -> Option<SpsInfo> {
    if 24 > 8 * s.len() {
        None
    } else {
        let profile_indication = crate::reader::bits_value(s, 0, 8);
        let profile_compatability = crate::reader::bits_value(s, 8, 8);
        let level_indication = crate::reader::bits_value(s, 16, 8);
        match spec_read_ue(s, 24) {
            None => None,
            Some((_sps_id, p1)) => match spec_read_ue(s, p1) {
                None => None,
                Some((_log2mfn, p2)) => match spec_read_ue(s, p2) {
                    None => None,
                    Some((poc_type, p3)) => match spec_sps_poc(s, p3, poc_type) {
                        None => None,
                        Some(p4) => match spec_read_ue(s, p4) {
                            None => None,
                            Some((_ref_frames, p5)) => {
                                if p5 + 1 > 8 * s.len() {
                                    None
                                } else {
                                    spec_parse_sps_size(
                                        s,
                                        p5 + 1,
                                        (profile_indication as u8),
                                        (profile_compatability as u8),
                                        (level_indication as u8),
                                    )
                                }
                            },
                        },
                    },
                },
            },
        }
    }
}

/// The size part of the SPS parse, after the reference-frame fields.
pub open spec fn spec_parse_sps_size(
    s: Seq<u8>,
    p: int,
    profile_indication: u8,
    profile_compatability: u8,
    level_indication: u8,
) -> Option<SpsInfo> {
    match spec_read_ue(s, p) {
        None => None,
        Some((pw, p1)) => match spec_read_ue(s, p1) {
            None => None,
            Some((ph, p2)) => {
                if p2 + 1 > 8 * s.len() {
                    None
                } else {
                    let mbs_only = crate::reader::bit_at(s, p2);
                    let p3 = if mbs_only {
                        p2 + 1
                    } else {
                        p2 + 2
                    };
                    if p3 + 1 > 8 * s.len() {
                        None
                    } else {
                        let p4 = p3 + 1;
                        if p4 + 1 > 8 * s.len() {
                            None
                        } else {
                            let crop_flag = crate::reader::bit_at(s, p4);
                            match spec_sps_crop(s, p4 + 1, crop_flag) {
                                None => None,
                                Some((cl, cr, ct, cb, p5)) => {
                                    if p5 + 1 > 8 * s.len() {
                                        None
                                    } else {
                                        let vui_flag = crate::reader::bit_at(s, p5);
                                        let after_vui = if vui_flag {
                                            spec_sps_vui(s, p5 + 1)
                                        } else {
                                            Some(p5 + 1)
                                        };
                                        match after_vui {
                                            None => None,
                                            Some(_) => spec_sps_dims(
                                                pw,
                                                ph,
                                                mbs_only,
                                                cl,
                                                cr,
                                                ct,
                                                cb,
                                                profile_indication,
                                                profile_compatability,
                                                level_indication,
                                            ),
                                        }
                                    }
                                },
                            }
                        }
                    }
                }
            },
        },
    }
}

/// The cropped luma dimensions, with 4:2:0 cropping units: one sample
/// horizontally, and one or two rows vertically depending on the
/// frame-macroblocks-only flag.
pub open spec fn spec_sps_dims(
    pw: u64,
    ph: u64,
    mbs_only: bool,
    cl: u64,
    cr: u64,
    ct: u64,
    cb: u64,
    profile_indication: u8,
    profile_compatability: u8,
    level_indication: u8,
) -> Option<SpsInfo> {
    let fmo: int = if mbs_only {
        1
    } else {
        2
    };
    let w0 = (pw + 1) * 16;
    let h0 = fmo * ((ph + 1) * 16);
    let cw = (cl + cr) * 1;
    let ch = (ct + cb) * fmo;
    if cw > w0 || ch > h0 {
        None
    } else if w0 - cw > u32::MAX || h0 - ch > u32::MAX {
        None
    } else {
        Some(
            SpsInfo {
                profile_indication,
                profile_compatability,
                level_indication,
                width: (w0 - cw) as u32,
                height: (h0 - ch) as u32,
            },
        )
    }
}

impl DecoderConfigurationRecord {
    /// Decode the stored SPS and fill in the profile bytes and the
    /// cropped picture size.  On a malformed SPS the record is left
    /// unchanged.
    #[verifier::rlimit(100)]
    #[verifier::spinoff_prover]
    #[verifier::loop_isolation(false)]
    pub fn parse(&mut self) -> (r: Result<(), AvcError>)
        requires
            old(self).sps@.len() > 0,
            old(self).sps@[0]@.data.len() < 0x1000_0000,
        ensures
            match spec_parse_sps(spec_ebsp_to_rbsp(old(self).sps@[0]@.data)) {
                Some(info) => r is Ok && *final(self) == (DecoderConfigurationRecord {
                    profile_indication: info.profile_indication,
                    profile_compatability: info.profile_compatability,
                    level_indication: info.level_indication,
                    width: info.width,
                    height: info.height,
                    ..*old(self)
                }),
                None => r == Err::<(), AvcError>(AvcError::NotEnoughData) && *final(self)
                    == *old(self),
            },
    {
        proof {
            reveal(spec_parse_sps);
        }
        let rbsp = ebsp_to_rbsp(self.sps[0].payload());
        proof {
            crate::codec::nal::lemma_ebsp_len(self.sps@[0]@.data);
        }
        let mut bits = BitReader::new(rbsp);
        let profile_indication = match bits.read_bits(8) {
            Some(v) => v as u8,
            None => {
                return Err(AvcError::NotEnoughData);
            },
        };
        let profile_compatability = match bits.read_bits(8) {
            Some(v) => v as u8,
            None => {
                return Err(AvcError::NotEnoughData);
            },
        };
        let level_indication = match bits.read_bits(8) {
            Some(v) => v as u8,
            None => {
                return Err(AvcError::NotEnoughData);
            },
        };
        proof {
            crate::reader::lemma_bits_value_bound(bits.data@, 0, 8);
            crate::reader::lemma_bits_value_bound(bits.data@, 8, 8);
            crate::reader::lemma_bits_value_bound(bits.data@, 16, 8);
            assert(crate::reader::pow2n(8) == 256) by {
                reveal_with_fuel(crate::reader::pow2n, 9);
            }
        }
        if bits.read_ue().is_none() {
            return Err(AvcError::NotEnoughData);
        }
        if bits.read_ue().is_none() {
            return Err(AvcError::NotEnoughData);
        }
        let poc_type = match bits.read_ue() {
            Some(v) => v,
            None => {
                return Err(AvcError::NotEnoughData);
            },
        };
        let ghost s_bits = bits.data@;
        if poc_type == 0 {
            if bits.read_ue().is_none() {
                return Err(AvcError::NotEnoughData);
            }
        } else if poc_type == 1 {
            if !bits.seek_bits(1) {
                return Err(AvcError::NotEnoughData);
            }
            if bits.read_se().is_none() {
                return Err(AvcError::NotEnoughData);
            }
            if bits.read_se().is_none() {
                return Err(AvcError::NotEnoughData);
            }
            let cycle = match bits.read_ue() {
                Some(v) => v,
                None => {
                    return Err(AvcError::NotEnoughData);
                },
            };
            let ghost pc = bits.bit as int;
            let mut k: u64 = 0;
            while k < cycle
                invariant
                    k <= cycle,
                    bits.wf(),
                    bits.data@ == s_bits,
                    match spec_skip_se_n(s_bits, bits.bit as int, cycle - k) {
                        Some(pend) => spec_skip_se_n(s_bits, pc, cycle as int) == Some(pend),
                        None => spec_skip_se_n(s_bits, pc, cycle as int) is None,
                    },
                decreases cycle - k,
            {
                if bits.read_se().is_none() {
                    return Err(AvcError::NotEnoughData);
                }
                k = k + 1;
            }
        }
        if bits.read_ue().is_none() {
            return Err(AvcError::NotEnoughData);
        }
        if !bits.seek_bits(1) {
            return Err(AvcError::NotEnoughData);
        }
        let info = match parse_size_part(
            &mut bits,
            profile_indication,
            profile_compatability,
            level_indication,
        ) {
            Ok(i) => i,
            Err(e) => {
                return Err(e);
            },
        };
        self.profile_indication = info.profile_indication;
        self.profile_compatability = info.profile_compatability;
        self.level_indication = info.level_indication;
        self.width = info.width;
        self.height = info.height;
        Ok(())
    }
}

/// The tail of the SPS parse: picture size, cropping, VUI, and the
/// derived dimensions.
#[verifier::rlimit(100)]
#[verifier::spinoff_prover]
fn parse_size_part(
    bits: &mut BitReader,
    profile_indication: u8,
    profile_compatability: u8,
    level_indication: u8,
) -> (r: Result<SpsInfo, AvcError>)
    requires
        old(bits).wf(),
    ensures
        final(bits).wf(),
        match spec_parse_sps_size(
            old(bits).data@,
            old(bits).bit as int,
            profile_indication,
            profile_compatability,
            level_indication,
        ) {
            Some(info) => r == Ok::<SpsInfo, AvcError>(info),
            None => r == Err::<SpsInfo, AvcError>(AvcError::NotEnoughData),
        },
{
        let ghost s_bits = bits.data@;
        let pw = match bits.read_ue() {
            Some(v) => v,
            None => {
                return Err(AvcError::NotEnoughData);
            },
        };
        let ph = match bits.read_ue() {
            Some(v) => v,
            None => {
                return Err(AvcError::NotEnoughData);
            },
        };
        let mbs_only = match bits.read_bit() {
            Some(b) => b,
            None => {
                return Err(AvcError::NotEnoughData);
            },
        };
        if !mbs_only {
            if bits.read_bit().is_none() {
                return Err(AvcError::NotEnoughData);
            }
        }
        if bits.read_bit().is_none() {
            return Err(AvcError::NotEnoughData);
        }
        let crop_flag = match bits.read_bit() {
            Some(b) => b,
            None => {
                return Err(AvcError::NotEnoughData);
            },
        };
        let mut cl: u64 = 0;
        let mut cr: u64 = 0;
        let mut ct: u64 = 0;
        let mut cb: u64 = 0;
        if crop_flag {
            cl = match bits.read_ue() {
                Some(v) => v,
                None => {
                    return Err(AvcError::NotEnoughData);
                },
            };
            cr = match bits.read_ue() {
                Some(v) => v,
                None => {
                    return Err(AvcError::NotEnoughData);
                },
            };
            ct = match bits.read_ue() {
                Some(v) => v,
                None => {
                    return Err(AvcError::NotEnoughData);
                },
            };
            cb = match bits.read_ue() {
                Some(v) => v,
                None => {
                    return Err(AvcError::NotEnoughData);
                },
            };
        }
        let vui_flag = match bits.read_bit() {
            Some(b) => b,
            None => {
                return Err(AvcError::NotEnoughData);
            },
        };
        if vui_flag {
            match read_vui(&mut *bits) {
                Ok(()) => {},
                Err(e) => {
                    return Err(e);
                },
            }
        }
        let fmo: u64 = if mbs_only {
            1
        } else {
            2
        };
        let w0: u64 = (pw + 1) * 16;
        let h0: u64 = fmo * ((ph + 1) * 16);
        let cw: u64 = cl + cr;
        let ch: u64 = (ct + cb) * fmo;
        if cw > w0 || ch > h0 {
            return Err(AvcError::NotEnoughData);
        }
        if w0 - cw > u32::MAX as u64 || h0 - ch > u32::MAX as u64 {
            return Err(AvcError::NotEnoughData);
        }
        Ok(
            SpsInfo {
                profile_indication,
                profile_compatability,
                level_indication,
                width: (w0 - cw) as u32,
                height: (h0 - ch) as u32,
            },
        )
}

/// Walk the VUI block, validating its layout.
#[verifier::rlimit(100)]
#[verifier::spinoff_prover]
fn read_vui(bits: &mut BitReader) -> (r: Result<(), AvcError>)
    requires
        old(bits).wf(),
    ensures
        final(bits).wf(),
        final(bits).data == old(bits).data,
        match spec_sps_vui(old(bits).data@, old(bits).bit as int) {
            Some(pend) => r is Ok && final(bits).bit == pend,
            None => r == Err::<(), AvcError>(AvcError::NotEnoughData),
        },
{
    let ghost s_bits = bits.data@;
    let aspect_flag = match bits.read_bit() {
        Some(b) => b,
        None => {
            return Err(AvcError::NotEnoughData);
        },
    };
    if aspect_flag {
        let ghost pidc = bits.bit as int;
        let idc = match bits.read_bits(8) {
            Some(v) => v,
            None => {
                return Err(AvcError::NotEnoughData);
            },
        };
        proof {
            crate::reader::lemma_bits_value_bound(s_bits, pidc, 8);
        }
        if idc == 255 {
            if bits.read_bits(16).is_none() {
                return Err(AvcError::NotEnoughData);
            }
            if bits.read_bits(16).is_none() {
                return Err(AvcError::NotEnoughData);
            }
        }
    }
    let overscan = match bits.read_bit() {
        Some(b) => b,
        None => {
            return Err(AvcError::NotEnoughData);
        },
    };
    if overscan {
        if bits.read_bit().is_none() {
            return Err(AvcError::NotEnoughData);
        }
    }
    let video_signal = match bits.read_bit() {
        Some(b) => b,
        None => {
            return Err(AvcError::NotEnoughData);
        },
    };
    if video_signal {
        if !bits.seek_bits(4) {
            return Err(AvcError::NotEnoughData);
        }
        let colour = match bits.read_bit() {
            Some(b) => b,
            None => {
                return Err(AvcError::NotEnoughData);
            },
        };
        if colour {
            if !bits.seek_bits(24) {
                return Err(AvcError::NotEnoughData);
            }
        }
    }
    let chroma_loc = match bits.read_bit() {
        Some(b) => b,
        None => {
            return Err(AvcError::NotEnoughData);
        },
    };
    if chroma_loc {
        if bits.read_ue().is_none() {
            return Err(AvcError::NotEnoughData);
        }
        if bits.read_ue().is_none() {
            return Err(AvcError::NotEnoughData);
        }
    }
    let timing = match bits.read_bit() {
        Some(b) => b,
        None => {
            return Err(AvcError::NotEnoughData);
        },
    };
    if timing {
        if bits.read_bits(32).is_none() {
            return Err(AvcError::NotEnoughData);
        }
        if bits.read_bits(32).is_none() {
            return Err(AvcError::NotEnoughData);
        }
        if bits.read_bit().is_none() {
            return Err(AvcError::NotEnoughData);
        }
    }
    Ok(())
}

/// Specification view of a configuration record.
#[verifier::ext_equal]
pub struct DcrView {
    pub version: u8,
    pub profile_indication: u8,
    pub profile_compatability: u8,
    pub level_indication: u8,
    pub nalu_size: u8,
    pub sps: Seq<UnitView>,
    pub pps: Seq<UnitView>,
    pub width: u32,
    pub height: u32,
}

impl View for DecoderConfigurationRecord {
    type V = DcrView;

    open spec fn view(&self) -> DcrView {
        DcrView {
            version: self.version,
            profile_indication: self.profile_indication,
            profile_compatability: self.profile_compatability,
            level_indication: self.level_indication,
            nalu_size: self.nalu_size,
            sps: unit_views(self.sps@),
            pps: unit_views(self.pps@),
            width: self.width,
            height: self.height,
        }
    }
}

/// What one Annex-B unit does to the coder's record: a sequence parameter
/// set replaces the SPS list and, when it decodes, the profile bytes and
/// dimensions; a picture parameter set replaces the PPS list.
pub open spec fn spec_apply_unit(d: DcrView, u: UnitView) -> DcrView {
    if u.kind == UnitType::Sps {
        let d1 = DcrView { sps: seq![u], ..d };
        if u.data.len() < 0x1000_0000 {
            match spec_parse_sps(spec_ebsp_to_rbsp(u.data)) {
                Some(info) => DcrView {
                    profile_indication: info.profile_indication,
                    profile_compatability: info.profile_compatability,
                    level_indication: info.level_indication,
                    width: info.width,
                    height: info.height,
                    ..d1
                },
                None => d1,
            }
        } else {
            d1
        }
    } else if u.kind == UnitType::Pps {
        DcrView { pps: seq![u], ..d }
    } else {
        d
    }
}

/// The fold of `spec_apply_unit` over a unit list.
pub open spec fn spec_apply_units(d: DcrView, units: Seq<UnitView>) -> DcrView
    decreases units.len(),
{
    if units.len() == 0 {
        d
    } else {
        spec_apply_units(spec_apply_unit(d, units[0]), units.drop_first())
    }
}

/// The stateful H.264 coder: it splits Annex-B input into units and keeps
/// the latest parameter sets in its configuration record.
pub struct H264Coder {
    pub dcr: Option<DecoderConfigurationRecord>,
}

impl H264Coder {
    pub fn new() -> (r: H264Coder)
        ensures
            r.dcr is None,
    {
        H264Coder { dcr: None }
    }

    /// Split an Annex-B stream into units, folding parameter sets into
    /// the configuration record (started from an empty record on first
    /// use).
    #[verifier::loop_isolation(false)]
    #[verifier::rlimit(100)]
    #[verifier::spinoff_prover]
    pub fn read_annexb(&mut self, data: &Vec<u8>) -> (r: Vec<Unit>)
        ensures
            unit_views(r@) == spec_annexb_parsed(data@),
            final(self).dcr matches Some(d) && d@ == spec_apply_units(
                match old(self).dcr {
                    Some(d0) => d0@,
                    None => spec_empty_dcr(),
                },
                spec_annexb_parsed(data@),
            ),
    {
        let spans = crate::codec::nal::annexb_split(data);
        let mut units: Vec<Unit> = Vec::new();
        let mut dcr = match self.dcr.take() {
            Some(d) => d,
            None => DecoderConfigurationRecord::default(),
        };
        proof {
            assert(unit_views(units@) =~= Seq::<UnitView>::empty());
            crate::codec::nal::lemma_annexb_units_nonempty(data@);
            lemma_parse_all_from(crate::codec::nal::byte_views(spans@), 0);
            assert(dcr@ == spec_apply_units(dcr@, unit_views(units@)));
        }
        let mut i: usize = 0;
        let ghost d0 = dcr@;
        proof {
            match old(self).dcr {
                Some(d_) => {
                    assert(d0 == d_@);
                },
                None => {
                    assert(d0 =~= spec_empty_dcr());
                },
            }
        }
        while i < spans.len()
            invariant
                i <= spans@.len(),
                unit_views(units@) == spec_parse_all_units(
                    crate::codec::nal::byte_views(spans@),
                    0,
                ).take(i as int),
                dcr@ == spec_apply_units(d0, unit_views(units@)),
            decreases spans@.len() - i,
        {
            proof {
                assert(crate::codec::nal::byte_views(spans@)[i as int].len() >= 1);
            }
            let unit = match Unit::try_from_bytes(&spans[i]) {
                Ok(u) => u,
                Err(_) => {
                    proof {
                        assert(false);
                    }
                    continue ;
                },
            };
            proof {
                lemma_apply_units_snoc(d0, unit_views(units@), unit@);
                assert(unit_views(units@.push(unit)) =~= unit_views(units@).push(unit@));
                assert(spec_parse_all_units(crate::codec::nal::byte_views(spans@), 0).take(
                    i + 1,
                ) =~= spec_parse_all_units(crate::codec::nal::byte_views(spans@), 0).take(
                    i as int,
                ).push(spec_parse_all_units(crate::codec::nal::byte_views(spans@), 0)[i as int]));
            }
            let ghost pre = dcr@;
            if unit.kind == UnitType::Sps {
                dcr.sps = vec_of_unit(&unit);
                // An implausibly large parameter set is kept but not decoded.
                if unit.data.len() < 0x1000_0000 {
                    let _ = dcr.parse();
                }
                proof {
                    assert(dcr@ =~= spec_apply_unit(pre, unit@));
                }
            } else if unit.kind == UnitType::Pps {
                dcr.pps = vec_of_unit(&unit);
                proof {
                    assert(dcr@ =~= spec_apply_unit(pre, unit@));
                }
            } else {
                proof {
                    assert(dcr@ =~= spec_apply_unit(pre, unit@));
                }
            }
            units.push(unit);
            i = i + 1;
        }
        proof {
            assert(spec_parse_all_units(crate::codec::nal::byte_views(spans@), 0).take(
                spans@.len() as int,
            ) =~= spec_parse_all_units(crate::codec::nal::byte_views(spans@), 0));
        }
        self.dcr = Some(dcr);
        units
    }
}

/// An empty configuration record, as `Default` builds it.
pub open spec fn spec_empty_dcr() -> DcrView {
    DcrView {
        version: 1,
        profile_indication: 0,
        profile_compatability: 0,
        level_indication: 0,
        nalu_size: 4,
        sps: Seq::empty(),
        pps: Seq::empty(),
        width: 0,
        height: 0,
    }
}

/// The units of an Annex-B stream, parsed.
pub open spec fn spec_annexb_parsed(s: Seq<u8>) -> Seq<UnitView> {
    spec_parse_all_units(crate::codec::nal::spec_annexb_units(s), 0)
}

/// The units parsed from a list of non-empty spans.
pub open spec fn spec_parse_all_units(spans: Seq<Seq<u8>>, i: int) -> Seq<UnitView>
    decreases spans.len() - i,
{
    if i < 0 || i >= spans.len() {
        Seq::empty()
    } else {
        match spec_parse_unit(spans[i]) {
            Ok(u) => seq![u] + spec_parse_all_units(spans, i + 1),
            Err(_) => spec_parse_all_units(spans, i + 1),
        }
    }
}

/// With non-empty spans every unit parses, one for one.
pub proof fn lemma_parse_all_from(sp: Seq<Seq<u8>>, k: int)
    requires
        0 <= k <= sp.len(),
        forall|j: int| 0 <= j < sp.len() ==> (#[trigger] sp[j]).len() >= 1,
    ensures
        spec_parse_all_units(sp, k).len() == sp.len() - k,
        forall|i: int|
            0 <= i < sp.len() - k ==> #[trigger] spec_parse_all_units(sp, k)[i]
                == spec_parse_unit(sp[i + k])->Ok_0,
    decreases sp.len() - k,
{
    if k < sp.len() {
        lemma_parse_all_from(sp, k + 1);
        let rest = spec_parse_all_units(sp, k + 1);
        let u = spec_parse_unit(sp[k])->Ok_0;
        assert(sp[k].len() >= 1);
        assert(spec_parse_all_units(sp, k) =~= seq![u] + rest);
        assert forall|i: int| 0 <= i < sp.len() - k implies #[trigger] spec_parse_all_units(
            sp,
            k,
        )[i] == spec_parse_unit(sp[i + k])->Ok_0 by {
            if i == 0 {
                assert((seq![u] + rest)[0] == u);
            } else {
                assert((seq![u] + rest)[i] == rest[i - 1]);
                assert(rest[i - 1] == spec_parse_unit(sp[(i - 1) + (k + 1)])->Ok_0);
            }
        }
    }
}

/// Applying one more unit extends the fold.
pub proof fn lemma_apply_units_snoc(d: DcrView, units: Seq<UnitView>, u: UnitView)
    ensures
        spec_apply_units(d, units.push(u)) == spec_apply_unit(spec_apply_units(d, units), u),
    decreases units.len(),
{
    if units.len() == 0 {
        assert(units.push(u)[0] == u);
        assert(units.push(u).drop_first() =~= Seq::<UnitView>::empty());
        assert(spec_apply_units(d, units.push(u)) == spec_apply_units(
            spec_apply_unit(d, u),
            units.push(u).drop_first(),
        ));
        assert(spec_apply_units(spec_apply_unit(d, u), units.push(u).drop_first())
            == spec_apply_unit(d, u));
        assert(spec_apply_units(d, units) == d);
    } else {
        assert(units.push(u)[0] == units[0]);
        assert(units.push(u).drop_first() =~= units.drop_first().push(u));
        lemma_apply_units_snoc(spec_apply_unit(d, units[0]), units.drop_first(), u);
        assert(spec_apply_units(d, units.push(u)) == spec_apply_units(
            spec_apply_unit(d, units[0]),
            units.drop_first().push(u),
        ));
        assert(spec_apply_units(d, units) == spec_apply_units(
            spec_apply_unit(d, units[0]),
            units.drop_first(),
        ));
    }
}

/// A one-element unit list.
fn vec_of_unit(u: &Unit) -> (r: Vec<Unit>)
    ensures
        r@.len() == 1,
        r@[0]@ == u@,
        unit_views(r@) == seq![u@],
{
    let mut v: Vec<Unit> = Vec::new();
    let copy = Unit {
        ref_idc: u.ref_idc,
        kind: u.kind,
        data: crate::ts::demuxer::copy_range(&u.data, 0, u.data.len()),
    };
    proof {
        assert(u.data@.subrange(0, u.data@.len() as int) =~= u.data@);
    }
    v.push(copy);
    proof {
        assert(unit_views(v@) =~= seq![u@]);
    }
    v
}

/// Serializing then parsing a record built around one well-formed SPS and
/// PPS gives the record back, with the derived fields at their defaults.
#[verifier::rlimit(100)]
#[verifier::spinoff_prover]
pub proof fn lemma_dcr_round_trip(dcr: DecoderConfigurationRecord)
    requires
        dcr.version == 1,
        dcr.nalu_size == 4,
        dcr.sps@.len() == 1,
        dcr.pps@.len() == 1,
        dcr.sps@[0]@.wf(),
        dcr.pps@[0]@.wf(),
        dcr.sps@[0]@.data.len() + 1 <= 65535,
        dcr.pps@[0]@.data.len() + 1 <= 65535,
        dcr.profile_indication != 66,
        dcr.profile_indication != 77,
        dcr.profile_indication != 88,
    ensures
        spec_parse_dcr(spec_mux_dcr(dcr)) == Ok::<DcrParse, AvcError>(
            DcrParse {
                version: 1,
                profile_indication: dcr.profile_indication,
                profile_compatability: dcr.profile_compatability,
                level_indication: dcr.level_indication,
                nalu_size: 4,
                sps: seq![dcr.sps@[0]@],
                pps: seq![dcr.pps@[0]@],
                extended: None,
            },
        ),
{
    let s = spec_mux_dcr(dcr);
    let su = spec_unit_bytes(dcr.sps@[0]@);
    let pu = spec_unit_bytes(dcr.pps@[0]@);
    let sl = su.len() as int;
    let pl = pu.len() as int;
    assert(unit_views(dcr.sps@) =~= seq![dcr.sps@[0]@]);
    assert(unit_views(dcr.pps@) =~= seq![dcr.pps@[0]@]);
    assert(seq![dcr.sps@[0]@].drop_first() =~= Seq::<UnitView>::empty());
    assert(seq![dcr.pps@[0]@].drop_first() =~= Seq::<UnitView>::empty());
    assert(spec_mux_units(Seq::<UnitView>::empty()) =~= Seq::<u8>::empty());
    assert(spec_mux_units(unit_views(dcr.sps@)) =~= seq![(sl / 256) as u8, (sl % 256) as u8]
        + su);
    assert(spec_mux_units(unit_views(dcr.pps@)) =~= seq![(pl / 256) as u8, (pl % 256) as u8]
        + pu);
    assert(s.len() == 8 + sl + 3 + pl);
    assert(s[0] == 1);
    assert(s[1] == dcr.profile_indication);
    assert(s[2] == dcr.profile_compatability);
    assert(s[3] == dcr.level_indication);
    assert(s[4] == 0xFF);
    assert(s[5] == 0xE1);
    assert(s[5] % 32 == 1);
    // The SPS entry.
    assert(s.subrange(6, 8) =~= seq![(sl / 256) as u8, (sl % 256) as u8]);
    assert(crate::reader::be_value(s.subrange(6, 8)) == sl) by {
        let two = s.subrange(6, 8);
        assert(two.drop_last() =~= seq![(sl / 256) as u8]);
        assert(seq![(sl / 256) as u8].drop_last() =~= Seq::<u8>::empty());
        reveal_with_fuel(crate::reader::be_value, 3);
    }
    assert(s.subrange(8, 8 + sl) =~= su);
    lemma_unit_round_trip(dcr.sps@[0]@);
    assert(spec_parse_units(s, 6, 1) == Ok::<(Seq<UnitView>, int), AvcError>(
        (seq![dcr.sps@[0]@], 8 + sl),
    )) by {
        assert(spec_parse_units(s, 8 + sl, 0) == Ok::<(Seq<UnitView>, int), AvcError>(
            (Seq::<UnitView>::empty(), 8 + sl),
        ));
        assert(seq![dcr.sps@[0]@] + Seq::<UnitView>::empty() =~= seq![dcr.sps@[0]@]);
    }
    // The PPS count and entry.
    assert(s[8 + sl] == 1);
    assert(s.subrange(9 + sl, 11 + sl) =~= seq![(pl / 256) as u8, (pl % 256) as u8]);
    assert(crate::reader::be_value(s.subrange(9 + sl, 11 + sl)) == pl) by {
        let two = s.subrange(9 + sl, 11 + sl);
        assert(two.drop_last() =~= seq![(pl / 256) as u8]);
        assert(seq![(pl / 256) as u8].drop_last() =~= Seq::<u8>::empty());
        reveal_with_fuel(crate::reader::be_value, 3);
    }
    assert(s.subrange(11 + sl, 11 + sl + pl) =~= pu);
    lemma_unit_round_trip(dcr.pps@[0]@);
    assert(spec_parse_units(s, 9 + sl, 1) == Ok::<(Seq<UnitView>, int), AvcError>(
        (seq![dcr.pps@[0]@], 11 + sl + pl),
    )) by {
        assert(spec_parse_units(s, 11 + sl + pl, 0) == Ok::<(Seq<UnitView>, int), AvcError>(
            (Seq::<UnitView>::empty(), 11 + sl + pl),
        ));
        assert(seq![dcr.pps@[0]@] + Seq::<UnitView>::empty() =~= seq![dcr.pps@[0]@]);
    }
    // The record ends here, so the extended block is absent.
    assert(11 + sl + pl == s.len());
    assert(spec_parse_ext(s, s.len() as int) == Ok::<(Option<AvccExtendedConfig>, int), AvcError>(
        (None, s.len() as int),
    ));
}

/// Serialize a parameter-set list: a two-byte length then the unit
/// bytes, for each unit.
#[verifier::loop_isolation(false)]
fn mux_units(out: &mut Vec<u8>, units: &Vec<Unit>)
    requires
        forall|i: int| 0 <= i < units@.len() ==> (#[trigger] units@[i])@.wf(),
        forall|i: int| 0 <= i < units@.len() ==> (#[trigger] units@[i])@.data.len() + 1 <= 65535,
    ensures
        final(out)@ == old(out)@ + spec_mux_units(unit_views(units@)),
{
    let ghost uv = unit_views(units@);
    let n = units.len();
    let mut i: usize = 0;
    proof {
        assert(uv.skip(0) =~= uv);
        assert(out@ + spec_mux_units(uv.skip(0)) =~= old(out)@ + spec_mux_units(uv));
    }
    while i < n
        invariant
            i <= n,
            n == units@.len(),
            out@ + spec_mux_units(uv.skip(i as int)) == old(out)@ + spec_mux_units(uv),
        decreases n - i,
    {
        proof {
            assert(uv.skip(i as int)[0] == uv[i as int]);
            assert(uv[i as int] == units@[i as int]@);
            assert(uv.skip(i as int).drop_first() =~= uv.skip(i + 1));
        }
        let bytes = units[i].to_bytes();
        let l = bytes.len();
        let ghost pre = out@;
        out.push((l / 256) as u8);
        out.push((l % 256) as u8);
        append_bytes(out, &bytes);
        proof {
            assert(out@ =~= pre + (seq![(l / 256) as u8, (l % 256) as u8] + bytes@));
            assert(out@ + spec_mux_units(uv.skip(i + 1)) =~= pre + spec_mux_units(
                uv.skip(i as int),
            ));
        }
        i = i + 1;
    }
    proof {
        assert(spec_mux_units(uv.skip(n as int)) =~= Seq::<u8>::empty());
        assert(out@ + Seq::<u8>::empty() =~= out@);
    }
}

/// Append a byte vector to another.
pub fn append_bytes(out: &mut Vec<u8>, src: &Vec<u8>)
    ensures
        final(out)@ == old(out)@ + src@,
{
    let mut i: usize = 0;
    let n = src.len();
    proof {
        assert(out@ =~= old(out)@ + src@.subrange(0, 0));
    }
    while i < n
        invariant
            i <= n,
            n == src@.len(),
            out@ == old(out)@ + src@.subrange(0, i as int),
        decreases n - i,
    {
        let b = src[i];
        out.push(b);
        proof {
            assert(old(out)@ + src@.subrange(0, i + 1) =~= (old(out)@ + src@.subrange(
                0,
                i as int,
            )).push(b));
        }
        i = i + 1;
    }
    proof {
        assert(src@.subrange(0, n as int) =~= src@);
    }
}

/// A prefix never exceeds the whole.
proof fn lemma_units_size_prefix(s: Seq<Unit>, n: int)
    requires
        0 <= n <= s.len(),
    ensures
        spec_units_size(s.subrange(0, n)) <= spec_units_size(s),
    decreases s.len() - n,
{
    if n == s.len() {
        assert(s.subrange(0, n) =~= s);
    } else {
        lemma_units_size_prefix(s, n + 1);
        assert(s.subrange(0, n + 1).drop_last() =~= s.subrange(0, n));
        assert(s.subrange(0, n + 1).last() == s[n]);
    }
}

} // verus!
