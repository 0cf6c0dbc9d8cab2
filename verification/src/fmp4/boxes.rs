//! ISO-BMFF box serialization: the movie fragment (moof/mdat), the
//! initialization segment (ftyp/moov), and the sample-description
//! entries.  Every writer's bytes equal a specification-level layout.

use vstd::prelude::*;
use crate::codec::aac::RawAacStreamCodec;
use crate::codec::h264::{spec_mux_dcr, DecoderConfigurationRecord};
use crate::codec::h265::{
    push_u16_be, push_u32_be, spec_hevc_dcr_bytes, spec_u16_be, spec_u32_be,
    HEVCDecoderConfigurationRecord,
};
use crate::HZ;

verus! {

/// The eight big-endian bytes of a 64-bit value.
pub open spec fn spec_u64_be(v: u64) -> Seq<u8> {
    spec_u32_be((v / 0x1_0000_0000) as u32) + spec_u32_be((v % 0x1_0000_0000) as u32)
}

/// Append a 64-bit value, big endian.
pub fn push_u64_be(out: &mut Vec<u8>, v: u64)
    ensures
        final(out)@ == old(out)@ + spec_u64_be(v),
{
    push_u32_be(out, (v / 0x1_0000_0000) as u32);
    push_u32_be(out, (v % 0x1_0000_0000) as u32);
    proof {
        assert(out@ =~= old(out)@ + spec_u64_be(v));
    }
}

/// A box: its 32-bit size (header included), its type tag, its payload.
pub open spec fn spec_box(tag: u32, payload: Seq<u8>) -> Seq<u8> {
    spec_u32_be((payload.len() + 8) as u32) + spec_u32_be(tag) + payload
}

/// Serialize one box around a payload.
pub fn boxed(tag: u32, payload: Vec<u8>) -> (r: Vec<u8>)
    requires
        payload@.len() + 8 <= u32::MAX,
    ensures
        r@ == spec_box(tag, payload@),
        r@.len() == payload@.len() + 8,
{
    let mut out: Vec<u8> = Vec::new();
    push_u32_be(&mut out, (payload.len() + 8) as u32);
    push_u32_be(&mut out, tag);
    crate::codec::h264::append_bytes(&mut out, &payload);
    proof {
        assert(out@ =~= spec_box(tag, payload@));
    }
    out
}

/// One sample of a track run: its duration and size in the 90 kHz
/// timescale, its composition offset for video, and whether it can be
/// decoded on its own.
#[derive(Clone, Copy, PartialEq, Eq, Debug, Structural)]
pub struct TrunSample {
    pub duration: u32,
    pub size: u32,
    pub composition_time_offset: Option<u32>,
    pub keyframe: bool,
}

/// The sample-flags word: a keyframe depends on nothing; any other
/// sample depends on one and is a non-sync sample.
pub open spec fn spec_sample_flags(keyframe: bool) -> u32 {
    if keyframe {
        0x0200_0000
    } else {
        0x0101_0000
    }
}

/// The track-run flags: data offset, duration, size and flags always
/// present; the composition offset only for video.
pub open spec fn spec_trun_flags(sample: TrunSample) -> u32 {
    if sample.composition_time_offset is Some {
        0x0F01
    } else {
        0x0701
    }
}

/// The track-run payload: version and flags, one sample, the data
/// offset, then the sample fields.
pub open spec fn spec_trun(sample: TrunSample, data_offset: u32) -> Seq<u8> {
    spec_box(
        0x7472756e,
        spec_u32_be(spec_trun_flags(sample)) + spec_u32_be(1) + spec_u32_be(data_offset)
            + spec_u32_be(sample.duration) + spec_u32_be(sample.size) + spec_u32_be(
            spec_sample_flags(sample.keyframe),
        ) + (match sample.composition_time_offset {
            Some(cts) => spec_u32_be(cts),
            None => Seq::empty(),
        }),
    )
}

/// The track-fragment header: default-base-is-moof, with the track id
/// and a default sample duration.
pub open spec fn spec_tfhd(track_id: u32, duration: u32) -> Seq<u8> {
    spec_box(
        0x74666864,
        spec_u32_be(0x0002_0008) + spec_u32_be(track_id) + spec_u32_be(duration),
    )
}

/// The decode-time box, 64-bit.
pub open spec fn spec_tfdt(dts: u64) -> Seq<u8> {
    spec_box(0x74666474, spec_u32_be(0x0100_0000) + spec_u64_be(dts))
}

/// One whole media fragment: `moof { mfhd, traf { tfhd, tfdt, trun } }`
/// then `mdat` holding the sample bytes; the run's data offset points
/// just past the moof header into the mdat payload.
pub open spec fn spec_fragment(track_id: u32, dts: u64, sample: TrunSample, content: Seq<u8>) -> Seq<
    u8,
> {
    let trun_len: int = if sample.composition_time_offset is Some {
        36
    } else {
        32
    };
    let moof_size: int = 8 + 16 + (8 + 20 + 20 + trun_len);
    spec_box(
        0x6d6f6f66,
        spec_box(0x6d666864, spec_u32_be(0) + spec_u32_be(0)) + spec_box(
            0x74726166,
            spec_tfhd(track_id, sample.duration) + spec_tfdt(dts) + spec_trun(
                sample,
                (moof_size + 8) as u32,
            ),
        ),
    ) + spec_box(0x6d646174, content)
}

/// Serialize one media fragment.
#[verifier::rlimit(100)]
#[verifier::spinoff_prover]
pub fn write_fragment(track_id: u32, dts: u64, sample: TrunSample, content: &Vec<u8>) -> (r: Vec<
    u8,
>)
    requires
        content@.len() + 8 <= u32::MAX,
    ensures
        r@ == spec_fragment(track_id, dts, sample, content@),
{
    let trun_len: u32 = if sample.composition_time_offset.is_some() {
        36
    } else {
        32
    };
    let moof_size: u32 = 8 + 16 + (8 + 20 + 20 + trun_len);

    let mut mfhd_payload: Vec<u8> = Vec::new();
    push_u32_be(&mut mfhd_payload, 0);
    push_u32_be(&mut mfhd_payload, 0);
    let mfhd = boxed(0x6d666864, mfhd_payload);

    let mut tfhd_payload: Vec<u8> = Vec::new();
    push_u32_be(&mut tfhd_payload, 0x0002_0008);
    push_u32_be(&mut tfhd_payload, track_id);
    push_u32_be(&mut tfhd_payload, sample.duration);
    let tfhd = boxed(0x74666864, tfhd_payload);

    let mut tfdt_payload: Vec<u8> = Vec::new();
    push_u32_be(&mut tfdt_payload, 0x0100_0000);
    push_u64_be(&mut tfdt_payload, dts);
    let tfdt = boxed(0x74666474, tfdt_payload);

    let mut trun_payload: Vec<u8> = Vec::new();
    push_u32_be(&mut trun_payload, if sample.composition_time_offset.is_some() {
        0x0F01
    } else {
        0x0701
    });
    push_u32_be(&mut trun_payload, 1);
    push_u32_be(&mut trun_payload, moof_size + 8);
    push_u32_be(&mut trun_payload, sample.duration);
    push_u32_be(&mut trun_payload, sample.size);
    push_u32_be(&mut trun_payload, if sample.keyframe {
        0x0200_0000
    } else {
        0x0101_0000
    });
    match sample.composition_time_offset {
        Some(cts) => {
            push_u32_be(&mut trun_payload, cts);
        },
        None => {},
    }
    let trun = boxed(0x7472756e, trun_payload);

    let mut traf_payload = tfhd;
    crate::codec::h264::append_bytes(&mut traf_payload, &tfdt);
    crate::codec::h264::append_bytes(&mut traf_payload, &trun);
    let traf = boxed(0x74726166, traf_payload);

    let mut moof_payload = mfhd;
    crate::codec::h264::append_bytes(&mut moof_payload, &traf);
    let mut out = boxed(0x6d6f6f66, moof_payload);

    let mdat = boxed(0x6d646174, crate::ts::demuxer::copy_range(content, 0, content.len()));
    crate::codec::h264::append_bytes(&mut out, &mdat);
    proof {
        assert(content@.subrange(0, content@.len() as int) =~= content@);
        assert(out@ =~= spec_fragment(track_id, dts, sample, content@));
    }
    out
}

/// One AAC raw block as its own fragment on the audio track, with the
/// spec-fixed duration of 1024 samples at the stream's rate, scaled to
/// the 90 kHz timescale.
pub fn write_audio_fragment(timestamp: u64, frequency: u32, content: &Vec<u8>) -> (r: Vec<u8>)
    requires
        frequency > 0,
        content@.len() + 8 <= u32::MAX,
    ensures
        r@ == spec_fragment(
            2,
            timestamp,
            TrunSample {
                duration: (1024 * (HZ as int) / (frequency as int)) as u32,
                size: content@.len() as u32,
                composition_time_offset: None,
                keyframe: true,
            },
            content@,
        ),
{
    let duration: u32 = ((1024u64 * HZ as u64) / frequency as u64) as u32;
    let sample = TrunSample {
        duration,
        size: content.len() as u32,
        composition_time_offset: None,
        keyframe: true,
    };
    write_fragment(2, timestamp, sample, content)
}


/// The avc1 sample entry: a visual sample entry wrapping the serialized
/// AVC configuration record in an avcC box.
pub open spec fn spec_avc1_entry(dcr: DecoderConfigurationRecord) -> Seq<u8> {
    spec_box(
        0x61766331,
        spec_visual_sample_fields(dcr.width as u16, dcr.height as u16) + spec_box(
            0x61766343,
            spec_mux_dcr(dcr),
        ),
    )
}

/// The hev1 sample entry, wrapping the HEVC record in an hvcC box.
pub open spec fn spec_hev1_entry(dcr: HEVCDecoderConfigurationRecord, width: u16, height: u16) -> Seq<
    u8,
> {
    spec_box(
        0x68657631,
        spec_visual_sample_fields(width, height) + spec_box(
            0x68766343,
            spec_hevc_dcr_bytes(dcr),
        ),
    )
}

/// The fixed fields of a visual sample entry: reference index one, the
/// picture size, 72 dpi, one frame per sample, 24-bit depth.
pub open spec fn spec_visual_sample_fields(width: u16, height: u16) -> Seq<u8> {
    spec_u32_be(0) + spec_u32_be(1) + spec_u32_be(0) + spec_u32_be(0) + spec_u32_be(0)
        + spec_u32_be(0) + spec_u16_be(width) + spec_u16_be(height) + spec_u32_be(0x0048_0000)
        + spec_u32_be(0x0048_0000) + spec_u32_be(0) + spec_u16_be(1) + spec_zero_bytes(32)
        + spec_u16_be(0x0018) + spec_u16_be(0xFFFF)
}

/// `n` zero bytes.
pub open spec fn spec_zero_bytes(n: int) -> Seq<u8>
    decreases n,
{
    if n <= 0 {
        Seq::empty()
    } else {
        spec_zero_bytes(n - 1) + seq![0u8]
    }
}

/// Append `n` zero bytes.
pub fn push_zero_bytes(out: &mut Vec<u8>, n: usize)
    ensures
        final(out)@ == old(out)@ + spec_zero_bytes(n as int),
{
    let mut i: usize = 0;
    proof {
        assert(out@ =~= old(out)@ + spec_zero_bytes(0));
    }
    while i < n
        invariant
            i <= n,
            out@ == old(out)@ + spec_zero_bytes(i as int),
        decreases n - i,
    {
        out.push(0);
        proof {
            assert((old(out)@ + spec_zero_bytes(i as int)).push(0u8) =~= old(out)@
                + spec_zero_bytes(i + 1));
        }
        i = i + 1;
    }
}

/// Append the visual sample-entry fields.
fn push_visual_sample_fields(out: &mut Vec<u8>, width: u16, height: u16)
    ensures
        final(out)@ == old(out)@ + spec_visual_sample_fields(width, height),
{
    push_u32_be(out, 0);
    push_u32_be(out, 1);
    push_u32_be(out, 0);
    push_u32_be(out, 0);
    push_u32_be(out, 0);
    push_u32_be(out, 0);
    push_u16_be(out, width);
    push_u16_be(out, height);
    push_u32_be(out, 0x0048_0000);
    push_u32_be(out, 0x0048_0000);
    push_u32_be(out, 0);
    push_u16_be(out, 1);
    push_zero_bytes(out, 32);
    push_u16_be(out, 0x0018);
    push_u16_be(out, 0xFFFF);
    proof {
        assert(out@ =~= old(out)@ + spec_visual_sample_fields(width, height));
    }
}

/// Serialize the avc1 sample entry.
pub fn stsd_entry_h264(config: &DecoderConfigurationRecord) -> (r: Vec<u8>)
    requires
        1 <= config.sps@.len() <= 31,
        1 <= config.pps@.len() <= 255,
        forall|i: int| 0 <= i < config.sps@.len() ==> (#[trigger] config.sps@[i])@.wf(),
        forall|i: int| 0 <= i < config.pps@.len() ==> (#[trigger] config.pps@[i])@.wf(),
        forall|i: int|
            0 <= i < config.sps@.len() ==> (#[trigger] config.sps@[i])@.data.len() + 1 <= 65535,
        forall|i: int|
            0 <= i < config.pps@.len() ==> (#[trigger] config.pps@[i])@.data.len() + 1 <= 65535,
        spec_mux_dcr(*config).len() + 102 <= u32::MAX,
    ensures
        r@ == spec_avc1_entry(*config),
{
    let mut avcc_payload: Vec<u8> = Vec::new();
    config.mux(&mut avcc_payload);
    let avcc = boxed(0x61766343, avcc_payload);
    let mut entry_payload: Vec<u8> = Vec::new();
    push_visual_sample_fields(&mut entry_payload, config.width as u16, config.height as u16);
    crate::codec::h264::append_bytes(&mut entry_payload, &avcc);
    proof {
        assert(spec_zero_bytes(32).len() == 32) by {
            reveal_with_fuel(spec_zero_bytes, 34);
        }
    }
    let entry = boxed(0x61766331, entry_payload);
    proof {
        assert(entry@ =~= spec_avc1_entry(*config));
    }
    entry
}

/// Serialize the hev1 sample entry.
pub fn stsd_entry_h265(config: &HEVCDecoderConfigurationRecord, width: u16, height: u16) -> (r:
    Vec<u8>)
    requires
        config.vps@.len() >= 1,
        config.sps@.len() >= 1,
        config.pps@.len() >= 1,
        config.vps@[0]@.wf(),
        config.sps@[0]@.wf(),
        config.pps@[0]@.wf(),
        config.vps@[0]@.data.len() + 2 <= 65535,
        config.sps@[0]@.data.len() + 2 <= 65535,
        config.pps@[0]@.data.len() + 2 <= 65535,
        config.general_profile_space < 4,
        config.general_profile_idc < 32,
        config.general_constraint_indicator_flags < 0x1_0000_0000_0000,
        config.num_temporal_layers < 8,
        config.length_size_minus_one < 4,
        spec_hevc_dcr_bytes(*config).len() + 102 <= u32::MAX,
    ensures
        r@ == spec_hev1_entry(*config, width, height),
{
    let hvcc_payload = config.to_bytes();
    let hvcc = boxed(0x68766343, hvcc_payload);
    let mut entry_payload: Vec<u8> = Vec::new();
    push_visual_sample_fields(&mut entry_payload, width, height);
    crate::codec::h264::append_bytes(&mut entry_payload, &hvcc);
    proof {
        assert(spec_zero_bytes(32).len() == 32) by {
            reveal_with_fuel(spec_zero_bytes, 34);
        }
    }
    let entry = boxed(0x68657631, entry_payload);
    proof {
        assert(entry@ =~= spec_hev1_entry(*config, width, height));
    }
    entry
}

/// The mp4a sample entry: the audio fields and an esds box whose
/// descriptors carry the two AudioSpecificConfiguration bytes.
pub open spec fn spec_mp4a_entry(channels: u16, frequency: u32, asc: Seq<u8>) -> Seq<u8> {
    spec_box(
        0x6d703461,
        spec_u32_be(0) + spec_u32_be(1) + spec_u32_be(0) + spec_u32_be(0) + spec_u16_be(channels)
            + spec_u16_be(16) + spec_u32_be(0) + spec_u32_be(((frequency % 0x1_0000) * 0x1_0000) as u32) + spec_box(
            0x65736473,
            spec_u32_be(0) + spec_esds_descriptors(asc),
        ),
    )
}

/// The ES descriptor tree: ES, decoder config (AAC, audio stream), the
/// specific info holding the configuration bytes, and the SL config.
pub open spec fn spec_esds_descriptors(asc: Seq<u8>) -> Seq<u8> {
    seq![0x03u8, (23 + asc.len()) as u8, 0u8, 2u8, 0u8] + seq![
        0x04u8,
        (15 + asc.len()) as u8,
        0x40u8,
        0x15u8,
        0u8,
        0u8,
        0u8,
        0u8,
        0u8,
        0u8,
        0u8,
        0u8,
        0u8,
        0u8,
        0x05u8,
        asc.len() as u8,
    ] + asc + seq![0x06u8, 0x01u8, 0x02u8]
}

/// Serialize the mp4a sample entry for a raw AAC stream.
pub fn stsd_entry_aac(codec: &RawAacStreamCodec) -> (r: Vec<u8>)
    requires
        codec.audio_specific_config@.len() <= 200,
    ensures
        r@ == spec_mp4a_entry(
            codec.channel_configuration as u16,
            crate::codec::aac::spec_freq_of(codec.sampling_frequency_index),
            codec.audio_specific_config@,
        ),
{
    let asc = &codec.audio_specific_config;
    let mut descr: Vec<u8> = Vec::new();
    descr.push(0x03);
    descr.push((23 + asc.len()) as u8);
    descr.push(0);
    descr.push(2);
    descr.push(0);
    descr.push(0x04);
    descr.push((15 + asc.len()) as u8);
    descr.push(0x40);
    descr.push(0x15);
    push_zero_bytes(&mut descr, 0);
    descr.push(0);
    descr.push(0);
    descr.push(0);
    descr.push(0);
    descr.push(0);
    descr.push(0);
    descr.push(0);
    descr.push(0);
    descr.push(0);
    descr.push(0);
    descr.push(0x05);
    descr.push(asc.len() as u8);
    crate::codec::h264::append_bytes(&mut descr, asc);
    descr.push(0x06);
    descr.push(0x01);
    descr.push(0x02);
    let mut esds_payload: Vec<u8> = Vec::new();
    push_u32_be(&mut esds_payload, 0);
    crate::codec::h264::append_bytes(&mut esds_payload, &descr);
    let esds = boxed(0x65736473, esds_payload);
    let mut entry_payload: Vec<u8> = Vec::new();
    push_u32_be(&mut entry_payload, 0);
    push_u32_be(&mut entry_payload, 1);
    push_u32_be(&mut entry_payload, 0);
    push_u32_be(&mut entry_payload, 0);
    push_u16_be(&mut entry_payload, codec.channel_configuration as u16);
    push_u16_be(&mut entry_payload, 16);
    push_u32_be(&mut entry_payload, 0);
    push_u32_be(&mut entry_payload, (codec.sampling_frequency_index.to_freq() % 0x1_0000) * 0x1_0000);
    crate::codec::h264::append_bytes(&mut entry_payload, &esds);
    let entry = boxed(0x6d703461, entry_payload);
    proof {
        assert(descr@ =~= spec_esds_descriptors(codec.audio_specific_config@));
        assert(entry@ =~= spec_mp4a_entry(
            codec.channel_configuration as u16,
            crate::codec::aac::spec_freq_of(codec.sampling_frequency_index),
            codec.audio_specific_config@,
        ));
    }
    entry
}


/// The file-type box: isom, with avc1 and mp41 as compatible brands.
pub open spec fn spec_ftyp() -> Seq<u8> {
    spec_box(
        0x66747970,
        spec_u32_be(0x69736f6d) + spec_u32_be(1) + spec_u32_be(0x69736f6d) + spec_u32_be(
            0x61766331,
        ) + spec_u32_be(0x6d703431),
    )
}

/// A movie header at the 90 kHz timescale with a unity matrix.
pub open spec fn spec_mvhd() -> Seq<u8> {
    spec_box(
        0x6d766864,
        spec_u32_be(0) + spec_u32_be(0) + spec_u32_be(0) + spec_u32_be(HZ as u32) + spec_u32_be(0)
            + spec_u32_be(0x0001_0000) + spec_u16_be(0x0100) + spec_u16_be(0) + spec_u32_be(0)
            + spec_u32_be(0) + spec_matrix() + spec_zero_bytes(24) + spec_u32_be(1),
    )
}

/// The unity transformation matrix.
pub open spec fn spec_matrix() -> Seq<u8> {
    spec_u32_be(0x0001_0000) + spec_u32_be(0) + spec_u32_be(0) + spec_u32_be(0) + spec_u32_be(
        0x0001_0000,
    ) + spec_u32_be(0) + spec_u32_be(0) + spec_u32_be(0) + spec_u32_be(0x4000_0000)
}

/// A track header: enabled and in the presentation, with the size for
/// video tracks and the fixed volume for audio tracks.
pub open spec fn spec_tkhd(track_id: u32, volume: u16, width: u32, height: u32) -> Seq<u8> {
    spec_box(
        0x746b6864,
        spec_u32_be(3) + spec_u32_be(0) + spec_u32_be(0) + spec_u32_be(track_id) + spec_u32_be(0)
            + spec_u32_be(0) + spec_u32_be(0) + spec_u32_be(0) + spec_u16_be(0) + spec_u16_be(0)
            + spec_u16_be(volume) + spec_u16_be(0) + spec_matrix() + spec_u32_be(
            (width * 0x1_0000) as u32,
        ) + spec_u32_be((height * 0x1_0000) as u32),
    )
}

/// A media header at the 90 kHz timescale, undetermined language.
pub open spec fn spec_mdhd() -> Seq<u8> {
    spec_box(
        0x6d646864,
        spec_u32_be(0) + spec_u32_be(0) + spec_u32_be(0) + spec_u32_be(HZ as u32) + spec_u32_be(0)
            + spec_u16_be(0x55C4) + spec_u16_be(0),
    )
}

/// A handler box with the handler type and an empty name.
pub open spec fn spec_hdlr(handler: u32) -> Seq<u8> {
    spec_box(
        0x68646c72,
        spec_u32_be(0) + spec_u32_be(0) + spec_u32_be(handler) + spec_zero_bytes(12) + seq![0u8],
    )
}

/// The data-information box: one self-contained data reference.
pub open spec fn spec_dinf() -> Seq<u8> {
    spec_box(
        0x64696e66,
        spec_box(
            0x64726566,
            spec_u32_be(0) + spec_u32_be(1) + spec_box(0x75726c20, spec_u32_be(1)),
        ),
    )
}

/// A sample table holding one description and empty fragment-era tables.
pub open spec fn spec_stbl(entry: Seq<u8>) -> Seq<u8> {
    spec_box(
        0x7374626c,
        spec_box(0x73747364, spec_u32_be(0) + spec_u32_be(1) + entry) + spec_box(
            0x73747473,
            spec_u32_be(0) + spec_u32_be(0),
        ) + spec_box(0x73747363, spec_u32_be(0) + spec_u32_be(0)) + spec_box(
            0x7374636f,
            spec_u32_be(0) + spec_u32_be(0),
        ) + spec_box(0x7374737a, spec_u32_be(0) + spec_u32_be(0) + spec_u32_be(0)),
    )
}

/// One track: its header, media header, handler, and media information
/// with the codec's sample entry.  The media-information header is vmhd
/// for video, smhd for audio.
pub open spec fn spec_trak(
    track_id: u32,
    volume: u16,
    width: u32,
    height: u32,
    handler: u32,
    header: Seq<u8>,
    entry: Seq<u8>,
) -> Seq<u8> {
    spec_box(
        0x7472616b,
        spec_tkhd(track_id, volume, width, height) + spec_box(
            0x6d646961,
            spec_mdhd() + spec_hdlr(handler) + spec_box(
                0x6d696e66,
                header + spec_dinf() + spec_stbl(entry),
            ),
        ),
    )
}

/// The video media-information header.
pub open spec fn spec_vmhd() -> Seq<u8> {
    spec_box(0x766d6864, spec_u32_be(1) + spec_u16_be(0) + spec_zero_bytes(6))
}

/// The sound media-information header.
pub open spec fn spec_smhd() -> Seq<u8> {
    spec_box(0x736d6864, spec_u32_be(0) + spec_u16_be(0) + spec_u16_be(0))
}

/// The fragment defaults: one trex per track.
pub open spec fn spec_mvex() -> Seq<u8> {
    spec_box(0x6d766578, spec_trex(1) + spec_trex(2))
}

pub open spec fn spec_trex(track_id: u32) -> Seq<u8> {
    spec_box(
        0x74726578,
        spec_u32_be(0) + spec_u32_be(track_id) + spec_u32_be(1) + spec_u32_be(0) + spec_u32_be(0)
            + spec_u32_be(0),
    )
}

/// The whole initialization segment: ftyp, then moov with the movie
/// header, the video track (id 1), the audio track (id 2), and the
/// fragment defaults.
pub open spec fn spec_init_segment(
    video_entry: Seq<u8>,
    audio_entry: Seq<u8>,
    width: u32,
    height: u32,
) -> Seq<u8> {
    spec_ftyp() + spec_box(
        0x6d6f6f76,
        spec_mvhd() + spec_trak(1, 0, width, height, 0x76696465, spec_vmhd(), video_entry)
            + spec_trak(2, 0x0100, 0, 0, 0x736f756e, spec_smhd(), audio_entry) + spec_mvex(),
    )
}

/// Append the unity matrix.
fn push_matrix(out: &mut Vec<u8>)
    ensures
        final(out)@ == old(out)@ + spec_matrix(),
{
    push_u32_be(out, 0x0001_0000);
    push_u32_be(out, 0);
    push_u32_be(out, 0);
    push_u32_be(out, 0);
    push_u32_be(out, 0x0001_0000);
    push_u32_be(out, 0);
    push_u32_be(out, 0);
    push_u32_be(out, 0);
    push_u32_be(out, 0x4000_0000);
    proof {
        assert(out@ =~= old(out)@ + spec_matrix());
    }
}

/// Serialize one track.
#[verifier::rlimit(100)]
#[verifier::spinoff_prover]
fn write_trak(
    track_id: u32,
    volume: u16,
    width: u32,
    height: u32,
    handler: u32,
    header: &Vec<u8>,
    entry: &Vec<u8>,
) -> (r: Vec<u8>)
    requires
        width < 0x1_0000,
        height < 0x1_0000,
        header@.len() <= 0x100,
        entry@.len() <= 0x100_0000,
    ensures
        r@ == spec_trak(track_id, volume, width, height, handler, header@, entry@),
{
    let mut tkhd_payload: Vec<u8> = Vec::new();
    push_u32_be(&mut tkhd_payload, 3);
    push_u32_be(&mut tkhd_payload, 0);
    push_u32_be(&mut tkhd_payload, 0);
    push_u32_be(&mut tkhd_payload, track_id);
    push_u32_be(&mut tkhd_payload, 0);
    push_u32_be(&mut tkhd_payload, 0);
    push_u32_be(&mut tkhd_payload, 0);
    push_u32_be(&mut tkhd_payload, 0);
    push_u16_be(&mut tkhd_payload, 0);
    push_u16_be(&mut tkhd_payload, 0);
    push_u16_be(&mut tkhd_payload, volume);
    push_u16_be(&mut tkhd_payload, 0);
    push_matrix(&mut tkhd_payload);
    push_u32_be(&mut tkhd_payload, width * 0x1_0000);
    push_u32_be(&mut tkhd_payload, height * 0x1_0000);
    let tkhd = boxed(0x746b6864, tkhd_payload);

    let mut mdhd_payload: Vec<u8> = Vec::new();
    push_u32_be(&mut mdhd_payload, 0);
    push_u32_be(&mut mdhd_payload, 0);
    push_u32_be(&mut mdhd_payload, 0);
    push_u32_be(&mut mdhd_payload, HZ);
    push_u32_be(&mut mdhd_payload, 0);
    push_u16_be(&mut mdhd_payload, 0x55C4);
    push_u16_be(&mut mdhd_payload, 0);
    let mdhd = boxed(0x6d646864, mdhd_payload);

    let mut hdlr_payload: Vec<u8> = Vec::new();
    push_u32_be(&mut hdlr_payload, 0);
    push_u32_be(&mut hdlr_payload, 0);
    push_u32_be(&mut hdlr_payload, handler);
    push_zero_bytes(&mut hdlr_payload, 12);
    hdlr_payload.push(0);
    proof {
        assert(spec_zero_bytes(12).len() == 12) by {
            reveal_with_fuel(spec_zero_bytes, 14);
        }
    }
    let hdlr = boxed(0x68646c72, hdlr_payload);

    let url = boxed(0x75726c20, {
        let mut p: Vec<u8> = Vec::new();
        push_u32_be(&mut p, 1);
        p
    });
    let mut dref_payload: Vec<u8> = Vec::new();
    push_u32_be(&mut dref_payload, 0);
    push_u32_be(&mut dref_payload, 1);
    crate::codec::h264::append_bytes(&mut dref_payload, &url);
    let dref = boxed(0x64726566, dref_payload);
    let dinf = boxed(0x64696e66, dref);

    let mut stsd_payload: Vec<u8> = Vec::new();
    push_u32_be(&mut stsd_payload, 0);
    push_u32_be(&mut stsd_payload, 1);
    crate::codec::h264::append_bytes(&mut stsd_payload, entry);
    let stsd = boxed(0x73747364, stsd_payload);
    let stts = boxed(0x73747473, {
        let mut p: Vec<u8> = Vec::new();
        push_u32_be(&mut p, 0);
        push_u32_be(&mut p, 0);
        p
    });
    let stsc = boxed(0x73747363, {
        let mut p: Vec<u8> = Vec::new();
        push_u32_be(&mut p, 0);
        push_u32_be(&mut p, 0);
        p
    });
    let stco = boxed(0x7374636f, {
        let mut p: Vec<u8> = Vec::new();
        push_u32_be(&mut p, 0);
        push_u32_be(&mut p, 0);
        p
    });
    let stsz = boxed(0x7374737a, {
        let mut p: Vec<u8> = Vec::new();
        push_u32_be(&mut p, 0);
        push_u32_be(&mut p, 0);
        push_u32_be(&mut p, 0);
        p
    });
    let mut stbl_payload = stsd;
    crate::codec::h264::append_bytes(&mut stbl_payload, &stts);
    crate::codec::h264::append_bytes(&mut stbl_payload, &stsc);
    crate::codec::h264::append_bytes(&mut stbl_payload, &stco);
    crate::codec::h264::append_bytes(&mut stbl_payload, &stsz);
    let stbl = boxed(0x7374626c, stbl_payload);

    let mut minf_payload = crate::ts::demuxer::copy_range(header, 0, header.len());
    proof {
        assert(header@.subrange(0, header@.len() as int) =~= header@);
    }
    crate::codec::h264::append_bytes(&mut minf_payload, &dinf);
    crate::codec::h264::append_bytes(&mut minf_payload, &stbl);
    let minf = boxed(0x6d696e66, minf_payload);

    let mut mdia_payload = mdhd;
    crate::codec::h264::append_bytes(&mut mdia_payload, &hdlr);
    crate::codec::h264::append_bytes(&mut mdia_payload, &minf);
    let mdia = boxed(0x6d646961, mdia_payload);

    let mut trak_payload = tkhd;
    crate::codec::h264::append_bytes(&mut trak_payload, &mdia);
    let trak = boxed(0x7472616b, trak_payload);
    proof {
        assert(spec_zero_bytes(12).len() == 12) by {
            reveal_with_fuel(spec_zero_bytes, 14);
        }
        assert(trak@ =~= spec_trak(track_id, volume, width, height, handler, header@, entry@));
    }
    trak
}

/// Serialize the initialization segment around the two sample entries.
#[verifier::rlimit(100)]
#[verifier::spinoff_prover]
pub fn write_init_segment(
    video_entry: &Vec<u8>,
    audio_entry: &Vec<u8>,
    width: u32,
    height: u32,
) -> (r: Vec<u8>)
    requires
        width < 0x1_0000,
        height < 0x1_0000,
        video_entry@.len() <= 0x100_0000,
        audio_entry@.len() <= 0x100_0000,
    ensures
        r@ == spec_init_segment(video_entry@, audio_entry@, width, height),
{
    let mut ftyp_payload: Vec<u8> = Vec::new();
    push_u32_be(&mut ftyp_payload, 0x69736f6d);
    push_u32_be(&mut ftyp_payload, 1);
    push_u32_be(&mut ftyp_payload, 0x69736f6d);
    push_u32_be(&mut ftyp_payload, 0x61766331);
    push_u32_be(&mut ftyp_payload, 0x6d703431);
    let mut out = boxed(0x66747970, ftyp_payload);

    let mut mvhd_payload: Vec<u8> = Vec::new();
    push_u32_be(&mut mvhd_payload, 0);
    push_u32_be(&mut mvhd_payload, 0);
    push_u32_be(&mut mvhd_payload, 0);
    push_u32_be(&mut mvhd_payload, HZ);
    push_u32_be(&mut mvhd_payload, 0);
    push_u32_be(&mut mvhd_payload, 0x0001_0000);
    push_u16_be(&mut mvhd_payload, 0x0100);
    push_u16_be(&mut mvhd_payload, 0);
    push_u32_be(&mut mvhd_payload, 0);
    push_u32_be(&mut mvhd_payload, 0);
    push_matrix(&mut mvhd_payload);
    push_zero_bytes(&mut mvhd_payload, 24);
    push_u32_be(&mut mvhd_payload, 1);
    proof {
        assert(spec_zero_bytes(24).len() == 24) by {
            reveal_with_fuel(spec_zero_bytes, 26);
        }
        assert(spec_zero_bytes(6).len() == 6) by {
            reveal_with_fuel(spec_zero_bytes, 8);
        }
    }
    let mvhd = boxed(0x6d766864, mvhd_payload);

    let vmhd = boxed(0x766d6864, {
        let mut p: Vec<u8> = Vec::new();
        push_u32_be(&mut p, 1);
        push_u16_be(&mut p, 0);
        push_zero_bytes(&mut p, 6);
        p
    });
    let smhd = boxed(0x736d6864, {
        let mut p: Vec<u8> = Vec::new();
        push_u32_be(&mut p, 0);
        push_u16_be(&mut p, 0);
        push_u16_be(&mut p, 0);
        p
    });
    let video_trak = write_trak(1, 0, width, height, 0x76696465, &vmhd, video_entry);
    let audio_trak = write_trak(2, 0x0100, 0, 0, 0x736f756e, &smhd, audio_entry);

    let trex1 = boxed(0x74726578, {
        let mut p: Vec<u8> = Vec::new();
        push_u32_be(&mut p, 0);
        push_u32_be(&mut p, 1);
        push_u32_be(&mut p, 1);
        push_u32_be(&mut p, 0);
        push_u32_be(&mut p, 0);
        push_u32_be(&mut p, 0);
        p
    });
    let trex2 = boxed(0x74726578, {
        let mut p: Vec<u8> = Vec::new();
        push_u32_be(&mut p, 0);
        push_u32_be(&mut p, 2);
        push_u32_be(&mut p, 1);
        push_u32_be(&mut p, 0);
        push_u32_be(&mut p, 0);
        push_u32_be(&mut p, 0);
        p
    });
    let mut mvex_payload = trex1;
    crate::codec::h264::append_bytes(&mut mvex_payload, &trex2);
    let mvex = boxed(0x6d766578, mvex_payload);

    let mut moov_payload = mvhd;
    crate::codec::h264::append_bytes(&mut moov_payload, &video_trak);
    crate::codec::h264::append_bytes(&mut moov_payload, &audio_trak);
    crate::codec::h264::append_bytes(&mut moov_payload, &mvex);
    let moov = boxed(0x6d6f6f76, moov_payload);
    crate::codec::h264::append_bytes(&mut out, &moov);
    proof {
        assert(out@ =~= spec_init_segment(video_entry@, audio_entry@, width, height));
    }
    out
}

} // verus!
