//! AAC: the AudioSpecificConfiguration, the ADTS transport framing, and
//! the raw-block splitter that feeds the fragmenter.

use vstd::prelude::*;
use crate::reader::{spec_read_be, spec_read_u8, Cursor};

verus! {

/// Why an AAC parse failed.
#[derive(Clone, Copy, PartialEq, Eq, Debug, Structural)]
pub enum AacError {
    NotEnoughData,
    UnsupportedAudioFormat,
    UnsupportedFrequencyIndex(u8),
    UnsupportedChannelConfiguration(u8),
}

/// The ISO/IEC 13818-7 profile, as carried in ADTS.
#[derive(Clone, Copy, PartialEq, Eq, Debug, Structural)]
pub enum AacProfile {
    AacProfileReserved,
    AacProfileMain,
    AacProfileLC,
    AacProfileSSR,
}

/// The profile denoted by the two ADTS profile bits.
pub open spec fn spec_aac_profile_from(u: u8) -> AacProfile {
    if u == 0 {
        AacProfile::AacProfileMain
    } else if u == 1 {
        AacProfile::AacProfileLC
    } else if u == 2 {
        AacProfile::AacProfileSSR
    } else {
        AacProfile::AacProfileReserved
    }
}

impl AacProfile {
    /// The two-bit profile value.
    pub fn from_u8(&self) -> (r: u8)
        ensures
            r == spec_aac_profile_value(*self),
    {
        match self {
            AacProfile::AacProfileReserved => 3u8,
            AacProfile::AacProfileMain => 0u8,
            AacProfile::AacProfileLC => 1u8,
            AacProfile::AacProfileSSR => 2u8,
        }
    }
}

pub open spec fn spec_aac_profile_value(p: AacProfile) -> u8 {
    match p {
        AacProfile::AacProfileReserved => 3,
        AacProfile::AacProfileMain => 0,
        AacProfile::AacProfileLC => 1,
        AacProfile::AacProfileSSR => 2,
    }
}

impl From<u8> for AacProfile {
    fn from(u: u8) -> (r: Self)
        ensures
            r == spec_aac_profile_from(u),
    {
        match u {
            0u8 => Self::AacProfileMain,
            1u8 => Self::AacProfileLC,
            2u8 => Self::AacProfileSSR,
            _ => Self::AacProfileReserved,
        }
    }
}

impl vstd::std_specs::convert::FromSpecImpl<u8> for AacProfile {
    open spec fn obeys_from_spec() -> bool {
        true
    }

    open spec fn from_spec(u: u8) -> AacProfile {
        spec_aac_profile_from(u)
    }
}

/// The sampling-frequency table index (ISO/IEC 14496-3, table 1.22).
#[derive(Clone, Copy, PartialEq, Eq, Debug, Structural)]
pub enum SampleFrequencyIndex {
    Freq96000,
    Freq88200,
    Freq64000,
    Freq48000,
    Freq44100,
    Freq32000,
    Freq24000,
    Freq22050,
    Freq16000,
    Freq12000,
    Freq11025,
    Freq8000,
    Freq7350,
    FreqReserved,
    FreqReserved2,
    FreqEscape,
}

/// The frequency in hertz of a table index; reserved and escape entries
/// have none and map to zero.
pub open spec fn spec_freq_of(i: SampleFrequencyIndex) -> u32 {
    match i {
        SampleFrequencyIndex::Freq96000 => 96000,
        SampleFrequencyIndex::Freq88200 => 88200,
        SampleFrequencyIndex::Freq64000 => 64000,
        SampleFrequencyIndex::Freq48000 => 48000,
        SampleFrequencyIndex::Freq44100 => 44100,
        SampleFrequencyIndex::Freq32000 => 32000,
        SampleFrequencyIndex::Freq24000 => 24000,
        SampleFrequencyIndex::Freq22050 => 22050,
        SampleFrequencyIndex::Freq16000 => 16000,
        SampleFrequencyIndex::Freq12000 => 12000,
        SampleFrequencyIndex::Freq11025 => 11025,
        SampleFrequencyIndex::Freq8000 => 8000,
        SampleFrequencyIndex::Freq7350 => 7350,
        SampleFrequencyIndex::FreqReserved => 0,
        SampleFrequencyIndex::FreqReserved2 => 0,
        SampleFrequencyIndex::FreqEscape => 0,
    }
}

/// The table index denoted by a four-bit value.
pub open spec fn spec_sfi_from(u: u8) -> SampleFrequencyIndex {
    if u == 0 {
        SampleFrequencyIndex::Freq96000
    } else if u == 1 {
        SampleFrequencyIndex::Freq88200
    } else if u == 2 {
        SampleFrequencyIndex::Freq64000
    } else if u == 3 {
        SampleFrequencyIndex::Freq48000
    } else if u == 4 {
        SampleFrequencyIndex::Freq44100
    } else if u == 5 {
        SampleFrequencyIndex::Freq32000
    } else if u == 6 {
        SampleFrequencyIndex::Freq24000
    } else if u == 7 {
        SampleFrequencyIndex::Freq22050
    } else if u == 8 {
        SampleFrequencyIndex::Freq16000
    } else if u == 9 {
        SampleFrequencyIndex::Freq12000
    } else if u == 10 {
        SampleFrequencyIndex::Freq11025
    } else if u == 11 {
        SampleFrequencyIndex::Freq8000
    } else if u == 12 {
        SampleFrequencyIndex::Freq7350
    } else if u == 13 {
        SampleFrequencyIndex::FreqReserved
    } else if u == 14 {
        SampleFrequencyIndex::FreqReserved2
    } else {
        SampleFrequencyIndex::FreqEscape
    }
}

impl SampleFrequencyIndex {
    /// The frequency in hertz, or zero for reserved entries.
    pub fn to_freq(&self) -> (r: u32)
        ensures
            r == spec_freq_of(*self),
    {
        match self {
            SampleFrequencyIndex::Freq96000 => 96000,
            SampleFrequencyIndex::Freq88200 => 88200,
            SampleFrequencyIndex::Freq64000 => 64000,
            SampleFrequencyIndex::Freq48000 => 48000,
            SampleFrequencyIndex::Freq44100 => 44100,
            SampleFrequencyIndex::Freq32000 => 32000,
            SampleFrequencyIndex::Freq24000 => 24000,
            SampleFrequencyIndex::Freq22050 => 22050,
            SampleFrequencyIndex::Freq16000 => 16000,
            SampleFrequencyIndex::Freq12000 => 12000,
            SampleFrequencyIndex::Freq11025 => 11025,
            SampleFrequencyIndex::Freq8000 => 8000,
            SampleFrequencyIndex::Freq7350 => 7350,
            SampleFrequencyIndex::FreqReserved => 0,
            SampleFrequencyIndex::FreqReserved2 => 0,
            SampleFrequencyIndex::FreqEscape => 0,
        }
    }
}

impl From<u8> for SampleFrequencyIndex {
    fn from(u: u8) -> (r: Self)
        ensures
            r == spec_sfi_from(u),
    {
        match u {
            0x0 => Self::Freq96000,
            0x1 => Self::Freq88200,
            0x2 => Self::Freq64000,
            0x3 => Self::Freq48000,
            0x4 => Self::Freq44100,
            0x5 => Self::Freq32000,
            0x6 => Self::Freq24000,
            0x7 => Self::Freq22050,
            0x8 => Self::Freq16000,
            0x9 => Self::Freq12000,
            0xA => Self::Freq11025,
            0xB => Self::Freq8000,
            0xC => Self::Freq7350,
            0xD => Self::FreqReserved,
            0xE => Self::FreqReserved2,
            _ => Self::FreqEscape,
        }
    }
}

impl vstd::std_specs::convert::FromSpecImpl<u8> for SampleFrequencyIndex {
    open spec fn obeys_from_spec() -> bool {
        true
    }

    open spec fn from_spec(u: u8) -> SampleFrequencyIndex {
        spec_sfi_from(u)
    }
}

/// An MPEG-4 audio object type; only the AAC family is supported.
#[derive(Clone, Copy, PartialEq, Eq, Debug, Structural)]
pub enum AudioObjectType {
    Reserved,
    AacMain,
    AacLowComplexity,
    AacScalableSampleRate,
    AacLongTermPrediction,
}

/// The five-bit value of an object type.
pub open spec fn spec_aot_value(t: AudioObjectType) -> u8 {
    match t {
        AudioObjectType::Reserved => 0,
        AudioObjectType::AacMain => 1,
        AudioObjectType::AacLowComplexity => 2,
        AudioObjectType::AacScalableSampleRate => 3,
        AudioObjectType::AacLongTermPrediction => 4,
    }
}

/// The object type accepted for a value: zero to four only.
pub open spec fn spec_aot_try_from(v: u16) -> Result<AudioObjectType, AacError> {
    if v == 0 {
        Ok(AudioObjectType::Reserved)
    } else if v == 1 {
        Ok(AudioObjectType::AacMain)
    } else if v == 2 {
        Ok(AudioObjectType::AacLowComplexity)
    } else if v == 3 {
        Ok(AudioObjectType::AacScalableSampleRate)
    } else if v == 4 {
        Ok(AudioObjectType::AacLongTermPrediction)
    } else {
        Err(AacError::UnsupportedAudioFormat)
    }
}

impl AudioObjectType {
    /// Accept the values zero to four; anything else is unsupported.
    pub fn try_from_u16(value: u16) -> (r: Result<Self, AacError>)
        ensures
            r == spec_aot_try_from(value),
    {
        match value {
            1 => Ok(Self::AacMain),
            2 => Ok(Self::AacLowComplexity),
            3 => Ok(Self::AacScalableSampleRate),
            4 => Ok(Self::AacLongTermPrediction),
            0 => Ok(Self::Reserved),
            _ => Err(AacError::UnsupportedAudioFormat),
        }
    }

    /// The five-bit value.
    pub fn as_u8(&self) -> (r: u8)
        ensures
            r == spec_aot_value(*self),
    {
        match self {
            Self::AacMain => 1,
            Self::AacLowComplexity => 2,
            Self::AacScalableSampleRate => 3,
            Self::AacLongTermPrediction => 4,
            Self::Reserved => 0,
        }
    }
}

/// A validated sampling-frequency index: table entries zero to twelve, or
/// the escape value fifteen.
#[derive(Clone, Copy, PartialEq, Eq, Debug, Structural)]
pub struct SamplingFrequencyIndex(pub u8);

impl SamplingFrequencyIndex {
    /// Accept zero to twelve and fifteen.
    pub fn try_from_u8(val: u8) -> (r: Result<Self, AacError>)
        ensures
            if val <= 12 || val == 15 {
                r == Ok::<SamplingFrequencyIndex, AacError>(SamplingFrequencyIndex(val))
            } else {
                r == Err::<SamplingFrequencyIndex, AacError>(
                    AacError::UnsupportedFrequencyIndex(val),
                )
            },
    {
        if val <= 12 || val == 15 {
            Ok(SamplingFrequencyIndex(val))
        } else {
            Err(AacError::UnsupportedFrequencyIndex(val))
        }
    }
}

/// A validated channel configuration: zero to seven.
#[derive(Clone, Copy, PartialEq, Eq, Debug, Structural)]
pub struct ChannelConfiguration(pub u8);

impl ChannelConfiguration {
    /// Accept zero to seven.
    pub fn try_from_u8(val: u8) -> (r: Result<Self, AacError>)
        ensures
            if val <= 7 {
                r == Ok::<ChannelConfiguration, AacError>(ChannelConfiguration(val))
            } else {
                r == Err::<ChannelConfiguration, AacError>(
                    AacError::UnsupportedChannelConfiguration(val),
                )
            },
    {
        if val <= 7 {
            Ok(ChannelConfiguration(val))
        } else {
            Err(AacError::UnsupportedChannelConfiguration(val))
        }
    }
}

/// The two-byte AudioSpecificConfiguration: object type, frequency index,
/// channel configuration and the three AOT-specific flags.
#[derive(Clone, Copy, PartialEq, Eq, Debug, Structural)]
pub struct AudioSpecificConfiguration {
    pub object_type: AudioObjectType,
    pub sampling_frequency_index: SamplingFrequencyIndex,
    pub sampling_frequency: Option<u32>,
    pub channel_configuration: ChannelConfiguration,
    pub frame_length_flag: bool,
    pub depends_on_core_coder: bool,
    pub extension_flag: bool,
}

/// Mirror of the two-byte configuration parse: 5 bits object type, 4 bits
/// frequency index, 4 bits channel configuration, 3 flag bits.  Inputs
/// shorter than two bytes or with out-of-range fields are rejected.
pub open spec fn spec_parse_asc(s: Seq<u8>) -> Result<AudioSpecificConfiguration, AacError> {
    if s.len() < 2 {
        Err(AacError::NotEnoughData)
    } else {
        let a = s[0];
        let b = s[1];
        match spec_aot_try_from((a / 8) as u16) {
            Err(e) => Err(e),
            Ok(object_type) => {
                let sf = ((a % 8) * 2 + b / 128) as u8;
                if !(sf <= 12 || sf == 15) {
                    Err(AacError::UnsupportedFrequencyIndex(sf))
                } else {
                    let ch = ((b / 8) % 16) as u8;
                    if ch > 7 {
                        Err(AacError::UnsupportedChannelConfiguration(ch))
                    } else {
                        Ok(
                            AudioSpecificConfiguration {
                                object_type,
                                sampling_frequency_index: SamplingFrequencyIndex(sf),
                                sampling_frequency: None,
                                channel_configuration: ChannelConfiguration(ch),
                                frame_length_flag: (b / 4) % 2 == 1,
                                depends_on_core_coder: (b / 2) % 2 == 1,
                                extension_flag: b % 2 == 1,
                            },
                        )
                    }
                }
            },
        }
    }
}

impl AudioSpecificConfiguration {
    /// Parse the two-byte configuration.
    pub fn try_from_bytes(val: &Vec<u8>) -> (r: Result<Self, AacError>)
        ensures
            r == spec_parse_asc(val@),
    {
        if val.len() < 2 {
            return Err(AacError::NotEnoughData);
        }
        let a = val[0];
        let b = val[1];
        let object_type = match AudioObjectType::try_from_u16((a / 8) as u16) {
            Ok(t) => t,
            Err(e) => {
                return Err(e);
            },
        };
        let sf = (a % 8) * 2 + b / 128;
        let sampling_frequency_index = match SamplingFrequencyIndex::try_from_u8(sf) {
            Ok(i) => i,
            Err(e) => {
                return Err(e);
            },
        };
        let ch = (b / 8) % 16;
        let channel_configuration = match ChannelConfiguration::try_from_u8(ch) {
            Ok(c) => c,
            Err(e) => {
                return Err(e);
            },
        };
        Ok(
            AudioSpecificConfiguration {
                object_type,
                sampling_frequency_index,
                sampling_frequency: None,
                channel_configuration,
                frame_length_flag: (b / 4) % 2 == 1,
                depends_on_core_coder: (b / 2) % 2 == 1,
                extension_flag: b % 2 == 1,
            },
        )
    }
}

/// The codec description attached to raw AAC blocks split from ADTS.
#[derive(Clone, Debug)]
pub struct RawAacStreamCodec {
    pub protection_absent: u8,
    pub aac_object: AudioObjectType,
    pub sampling_frequency_index: SampleFrequencyIndex,
    pub channel_configuration: u8,
    pub frame_length: u16,
    pub sound_format: u8,
    pub sound_rate: u8,
    pub sound_size: u8,
    pub sound_type: u8,
    pub aac_packet_type: u8,
    pub audio_specific_config: Vec<u8>,
}

impl Default for RawAacStreamCodec {
    fn default() -> (r: Self)
        ensures
            r.protection_absent == 0,
            r.aac_object == AudioObjectType::Reserved,
            r.sampling_frequency_index == SampleFrequencyIndex::FreqReserved,
            r.channel_configuration == 0,
            r.frame_length == 0,
            r.audio_specific_config@ == Seq::<u8>::empty(),
    {
        Self {
            protection_absent: 0,
            aac_object: AudioObjectType::Reserved,
            sampling_frequency_index: SampleFrequencyIndex::FreqReserved,
            channel_configuration: 0,
            frame_length: 0,
            sound_format: 0,
            sound_rate: 0,
            sound_size: 0,
            sound_type: 0,
            aac_packet_type: 0,
            audio_specific_config: Vec::new(),
        }
    }
}

/// One ADTS frame, reduced to what the fragmenter needs.
#[verifier::ext_equal]
pub struct AdtsFrameView {
    pub protection_absent: u8,
    pub profile: u8,
    pub sf_index: u8,
    pub channels: u8,
    pub frame_length: u16,
    pub payload: Seq<u8>,
}

/// The two AudioSpecificConfiguration bytes for an ADTS frame: the object
/// type is the profile plus one.
pub open spec fn spec_asc_bytes(profile: u8, sf_index: u8, channels: u8) -> Seq<u8> {
    seq![
        (((profile + 1) % 32) * 8 + sf_index / 2) as u8,
        ((sf_index % 2) * 128 + (channels % 16) * 8) as u8,
    ]
}

/// Mirror of the ADTS walk: each frame is a 7- or 9-byte header (12-bit
/// syncword 0xFFF, protection flag, profile, frequency index, channels,
/// 13-bit frame length covering the header) and its payload.  A broken
/// syncword, a length shorter than the header, or a truncated payload is
/// a parse failure.
pub open spec fn spec_parse_adts(s: Seq<u8>, pos: int) -> Result<Seq<AdtsFrameView>, AacError>
    decreases s.len() - pos,
{
    if pos < 0 || pos > s.len() {
        Err(AacError::NotEnoughData)
    } else if pos == s.len() {
        Ok(Seq::empty())
    } else if pos + 7 > s.len() {
        Err(AacError::NotEnoughData)
    } else {
        let b0 = s[pos];
        let b1 = s[pos + 1];
        let b2 = s[pos + 2];
        let b3 = s[pos + 3];
        let b4 = s[pos + 4];
        let b5 = s[pos + 5];
        if b0 != 0xFF || b1 / 16 != 0xF {
            Err(AacError::UnsupportedAudioFormat)
        } else {
            let protection_absent = b1 % 2;
            let profile = (b2 / 64) as u8;
            let sf_index = ((b2 / 4) % 16) as u8;
            let channels = ((b2 % 2) * 4 + b3 / 64) as u8;
            let frame_length = ((b3 % 4) * 2048 + (b4 as u16) * 8 + (b5 / 32) as u16) as u16;
            let header_len: int = if protection_absent == 1 {
                7
            } else {
                9
            };
            if frame_length < header_len {
                Err(AacError::NotEnoughData)
            } else if pos + frame_length > s.len() {
                Err(AacError::NotEnoughData)
            } else {
                let frame = AdtsFrameView {
                    protection_absent,
                    profile,
                    sf_index,
                    channels,
                    frame_length,
                    payload: s.subrange(pos + header_len, pos + frame_length),
                };
                match spec_parse_adts(s, pos + frame_length) {
                    Err(e) => Err(e),
                    Ok(rest) => Ok(seq![frame] + rest),
                }
            }
        }
    }
}

/// One raw AAC block split out of an ADTS stream, with its codec
/// description.
pub struct AacSample {
    pub codec: Option<RawAacStreamCodec>,
    pub data: Vec<u8>,
}

/// Whether a sample faithfully carries an ADTS frame.
pub open spec fn sample_matches_frame(sample: AacSample, f: AdtsFrameView) -> bool {
    &&& sample.data@ == f.payload
    &&& sample.codec matches Some(c) && {
        &&& c.protection_absent == f.protection_absent
        &&& c.aac_object == (match spec_aot_try_from((f.profile + 1) as u16) {
            Ok(t) => t,
            Err(_) => AudioObjectType::Reserved,
        })
        &&& c.sampling_frequency_index == spec_sfi_from(f.sf_index)
        &&& c.channel_configuration == f.channels
        &&& c.frame_length == f.frame_length
        &&& c.audio_specific_config@ == spec_asc_bytes(f.profile, f.sf_index, f.channels)
    }
}

/// The stateless AAC transport-stream coder: it splits ADTS into raw
/// blocks.
pub struct AacCoder {
}

impl AacCoder {
    pub fn new() -> AacCoder {
        AacCoder {  }
    }

    /// Split an ADTS byte stream into its raw AAC blocks.
    pub fn read_adts(&self, data: &Vec<u8>) -> (r: Result<Vec<AacSample>, AacError>)
        ensures
            match spec_parse_adts(data@, 0) {
                Ok(frames) => r matches Ok(samples) && samples@.len() == frames.len() && (forall|
                    i: int,
                |
                    0 <= i < frames.len() ==> sample_matches_frame(#[trigger] samples@[i], frames[i])),
                Err(e) => r == Err::<Vec<AacSample>, AacError>(e),
            },
    {
        let n = data.len();
        let mut pos: usize = 0;
        let mut out: Vec<AacSample> = Vec::new();
        while pos < n
            invariant
                pos <= n,
                n == data@.len(),
                match spec_parse_adts(data@, pos as int) {
                    Ok(rest) => spec_parse_adts(data@, 0) matches Ok(full) && full.len() == out@.len()
                        + rest.len() && (forall|i: int|
                        0 <= i < out@.len() ==> sample_matches_frame(
                            #[trigger] out@[i],
                            full[i],
                        )) && (forall|i: int|
                        0 <= i < rest.len() ==> full[out@.len() + i] == rest[i]),
                    Err(e) => spec_parse_adts(data@, 0) == Err::<Seq<AdtsFrameView>, AacError>(e),
                },
            decreases n - pos,
        {
            if n - pos < 7 {
                return Err(AacError::NotEnoughData);
            }
            let b0 = data[pos];
            let b1 = data[pos + 1];
            let b2 = data[pos + 2];
            let b3 = data[pos + 3];
            let b4 = data[pos + 4];
            let b5 = data[pos + 5];
            if b0 != 0xFF || b1 / 16 != 0xF {
                return Err(AacError::UnsupportedAudioFormat);
            }
            let protection_absent = b1 % 2;
            let profile = b2 / 64;
            let sf_index = (b2 / 4) % 16;
            let channels = (b2 % 2) * 4 + b3 / 64;
            let frame_length: u16 = (b3 % 4) as u16 * 2048 + (b4 as u16) * 8 + (b5 / 32) as u16;
            let header_len: usize = if protection_absent == 1 {
                7
            } else {
                9
            };
            if (frame_length as usize) < header_len {
                return Err(AacError::NotEnoughData);
            }
            if frame_length as usize > n - pos {
                return Err(AacError::NotEnoughData);
            }
            let payload = crate::ts::demuxer::copy_range(
                data,
                pos + header_len,
                frame_length as usize - header_len,
            );
            let aac_object = match AudioObjectType::try_from_u16((profile + 1) as u16) {
                Ok(t) => t,
                Err(_) => AudioObjectType::Reserved,
            };
            let mut asc: Vec<u8> = Vec::new();
            asc.push(((profile + 1) % 32) * 8 + sf_index / 2);
            asc.push((sf_index % 2) * 128 + (channels % 16) * 8);
            proof {
                assert(asc@ =~= spec_asc_bytes(profile, sf_index, channels));
            }
            let codec = RawAacStreamCodec {
                protection_absent,
                aac_object,
                sampling_frequency_index: SampleFrequencyIndex::from(sf_index),
                channel_configuration: channels,
                frame_length,
                sound_format: 10,
                sound_rate: 3,
                sound_size: 1,
                sound_type: 1,
                aac_packet_type: 1,
                audio_specific_config: asc,
            };
            let ghost frame = AdtsFrameView {
                protection_absent,
                profile,
                sf_index,
                channels,
                frame_length,
                payload: data@.subrange(pos + header_len, pos + frame_length as int),
            };
            let sample = AacSample { codec: Some(codec), data: payload };
            proof {
                assert(sample_matches_frame(sample, frame));
                let rest0 = spec_parse_adts(data@, pos as int);
                let rest1 = spec_parse_adts(data@, pos + frame_length as int);
                match rest1 {
                    Ok(r1) => {
                        assert(rest0 == Ok::<Seq<AdtsFrameView>, AacError>(seq![frame] + r1));
                    },
                    Err(_) => {},
                }
            }
            let ghost out_pre = out@;
            out.push(sample);
            pos = pos + frame_length as usize;
            proof {
                let s = data@;
                match spec_parse_adts(s, pos as int) {
                    Ok(r1) => {
                        let full = spec_parse_adts(s, 0)->Ok_0;
                        assert(full.len() == out@.len() + r1.len());
                        assert forall|i: int| 0 <= i < out@.len() implies sample_matches_frame(
                            #[trigger] out@[i],
                            full[i],
                        ) by {
                            if i == out_pre.len() {
                                assert(out@[i] == sample);
                                assert(full[i] == (seq![frame] + r1)[0]);
                            } else {
                                assert(out@[i] == out_pre[i]);
                            }
                        }
                        assert forall|i: int| 0 <= i < r1.len() implies full[out@.len() + i]
                            == r1[i] by {
                            assert(full[out_pre.len() + (i + 1)] == (seq![frame] + r1)[i + 1]);
                            assert((seq![frame] + r1)[i + 1] == r1[i]);
                        }
                    },
                    Err(_) => {},
                }
            }
        }
        Ok(out)
    }
}

} // verus!
