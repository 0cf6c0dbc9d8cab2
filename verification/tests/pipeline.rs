//! End-to-end checks of the demultiplexer, the codec parsers, and the
//! segment store.

use stream_kit::codec::aac::{AacCoder, AudioSpecificConfiguration};
use stream_kit::codec::h264::{DecoderConfigurationRecord, Unit, UnitType};
use stream_kit::codec::nal::{ebsp_to_rbsp, rbsp_to_ebsp};
use stream_kit::hls::segment_store::SegmentStore;
use stream_kit::reader::Cursor;
use stream_kit::ts::demuxer::{Demuxer, DemuxerEvent};
use stream_kit::ts::error::DemuxError;
use stream_kit::ts::pes_header::PesHeader;
use stream_kit::ts::pid::Pid;
use stream_kit::ts::stream_type::StreamType;
use stream_kit::fmp4::{pcr_delta, Mp4fWriter};
use stream_kit::fmp4::boxes::{write_fragment, TrunSample};
use stream_kit::session::{Action, Request, SessionTable};
use stream_kit::ts::packet_header::{AdaptationControl, PacketHeader};

#[test]
fn decodes_pts() {
    let raw = vec![0x31, 0x00, 0x05, 0x32, 0x81];
    let mut bytes = Cursor::new(&raw);

    let pts = PesHeader::read_pts(&mut bytes).unwrap();
    let hz = 90000u64;
    let rem = pts % hz;
    let secs = pts / hz;
    let nsecs = 1000000000 * rem / hz;

    let time = format!("{secs}.{nsecs:09}");

    assert_eq!(pts, 72000);
    assert_eq!(time, "0.800000000");
}

#[test]
fn decodes_dts() {
    let raw = vec![0x11, 0x00, 0x05, 0x1b, 0x11];
    let mut bytes = Cursor::new(&raw);

    let pts = PesHeader::read_pts(&mut bytes).unwrap();
    let hz = 90000u64;
    let rem = pts % hz;
    let secs = pts / hz;
    let nsecs = 1000000000 * rem / hz;

    let time = format!("{secs}.{nsecs:09}");

    assert_eq!(pts, 69000);
    assert_eq!(time, "0.766666666");
}

#[test]
fn rejects_bad_sync_byte() {
    let mut packet = vec![0u8; 188];
    packet[0] = 0x00;
    let mut demuxer = Demuxer::new();
    match demuxer.push(&packet) {
        Err(DemuxError::InvalidSyncByte { expected, found }) => {
            assert_eq!(expected, 0x47);
            assert_eq!(found, 0x00);
        },
        other => panic!("expected a sync-byte error, got {:?}", other.is_ok()),
    }
}

fn pat_packet() -> Vec<u8> {
    let mut p = vec![0xFFu8; 188];
    p[0] = 0x47;
    p[1] = 0x40; // PUSI, PID 0
    p[2] = 0x00;
    p[3] = 0x10; // payload only, counter 0
    p[4] = 0x00; // pointer field
    p[5] = 0x00; // table id
    p[6] = 0x80;
    p[7] = 13; // section length: 5 header + 4 entries + 4 crc
    p[8] = 0x00;
    p[9] = 0x01; // stream id
    p[10] = 0xC1; // reserved bits set
    p[11] = 0x00;
    p[12] = 0x00;
    p[13] = 0x00;
    p[14] = 0x01; // program number 1
    p[15] = 0xE1;
    p[16] = 0x00; // program pid 0x0100
    p[17] = 0x00;
    p[18] = 0x00;
    p[19] = 0x00;
    p[20] = 0x00; // crc
    p
}

fn pmt_packet() -> Vec<u8> {
    let mut p = vec![0xFFu8; 188];
    p[0] = 0x47;
    p[1] = 0x41; // PUSI, PID 0x0100
    p[2] = 0x00;
    p[3] = 0x10;
    p[4] = 0x00; // pointer field
    p[5] = 0x02; // table id
    p[6] = 0x80;
    p[7] = 23; // section length: 9 + 2 entries of 5 + 4 crc
    p[8] = 0x00;
    p[9] = 0x01;
    p[10] = 0xC1; // reserved bits set
    p[11] = 0x00;
    p[12] = 0x00;
    p[13] = 0xE1;
    p[14] = 0x01; // pcr pid 0x0101
    p[15] = 0xF0;
    p[16] = 0x00; // program info length 0
    p[17] = 0x1B; // H264
    p[18] = 0xE1;
    p[19] = 0x01; // pid 0x0101
    p[20] = 0xF0;
    p[21] = 0x00;
    p[22] = 0x0F; // AAC
    p[23] = 0xE1;
    p[24] = 0x02; // pid 0x0102
    p[25] = 0xF0;
    p[26] = 0x00;
    p[27] = 0x00;
    p[28] = 0x00;
    p[29] = 0x00;
    p[30] = 0x00; // crc
    p
}

#[test]
fn discovers_pat_and_pmt() {
    let mut buf = pat_packet();
    buf.extend_from_slice(&pmt_packet());
    let mut demuxer = Demuxer::new();
    let events = demuxer.push(&buf).unwrap();
    assert_eq!(events.len(), 1);
    match &events[0] {
        DemuxerEvent::StreamDetails(map) => {
            assert!(matches!(map.get(Pid::Other(0x0101)), Some(StreamType::H264)));
            assert!(matches!(map.get(Pid::Other(0x0102)), Some(StreamType::AAC)));
            assert_eq!(map.len(), 2);
        },
        _ => panic!("expected stream details"),
    }
    // A second PMT must not emit the details again.
    let events = demuxer.push(&pmt_packet()).unwrap();
    assert_eq!(events.len(), 0);
}

#[test]
fn emulation_prevention_round_trip() {
    let rbsp = vec![0x00, 0x00, 0x00, 0x00, 0x03, 0x01, 0x02, 0xAA, 0x00, 0x00];
    let ebsp = rbsp_to_ebsp(&rbsp);
    assert_eq!(ebsp, vec![0x00, 0x00, 0x03, 0x00, 0x00, 0x03, 0x03, 0x01, 0x02, 0xAA, 0x00, 0x00]);
    assert_eq!(ebsp_to_rbsp(&ebsp), rbsp);
}

#[test]
fn avc_record_round_trip() {
    let sps = Unit { ref_idc: 3, kind: UnitType::Sps, data: vec![0x64, 0x00, 0x1F, 0xAC] };
    let pps = Unit { ref_idc: 3, kind: UnitType::Pps, data: vec![0xEB, 0xEF] };
    let mut dcr = DecoderConfigurationRecord::default();
    dcr.profile_indication = 100;
    dcr.profile_compatability = 0;
    dcr.level_indication = 31;
    dcr.sps = vec![sps];
    dcr.pps = vec![pps];

    let mut bytes = Vec::new();
    dcr.mux(&mut bytes);
    let parsed = DecoderConfigurationRecord::try_from_bytes(&bytes).unwrap();
    assert_eq!(parsed.version, 1);
    assert_eq!(parsed.profile_indication, 100);
    assert_eq!(parsed.level_indication, 31);
    assert_eq!(parsed.nalu_size, 4);
    assert_eq!(parsed.sps.len(), 1);
    assert_eq!(parsed.pps.len(), 1);
    assert_eq!(parsed.sps[0].kind, UnitType::Sps);
    assert_eq!(parsed.sps[0].data, vec![0x64, 0x00, 0x1F, 0xAC]);
    assert_eq!(parsed.pps[0].data, vec![0xEB, 0xEF]);
}

#[test]
fn audio_specific_configuration_fields() {
    // AAC LC, 48 kHz (index 3), stereo: 00010 0011 0010 000.
    let asc = vec![0x11, 0x90];
    let parsed = AudioSpecificConfiguration::try_from_bytes(&asc).unwrap();
    assert_eq!(parsed.sampling_frequency_index.0, 3);
    assert_eq!(parsed.channel_configuration.0, 2);
}

#[test]
fn adts_splits_raw_blocks() {
    // One ADTS frame: sync, MPEG-4 AAC LC, 44.1 kHz, stereo, 9 bytes total.
    let frame = vec![0xFF, 0xF1, 0x50, 0x80, 0x01, 0x3F, 0xFC, 0xAB, 0xCD];
    let coder = AacCoder::new();
    let samples = coder.read_adts(&frame).unwrap();
    assert_eq!(samples.len(), 1);
    assert_eq!(samples[0].data, vec![0xAB, 0xCD]);
    let codec = samples[0].codec.as_ref().unwrap();
    assert_eq!(codec.channel_configuration, 2);
    assert_eq!(codec.sampling_frequency_index.to_freq(), 44100);
    assert_eq!(codec.frame_length, 9);
}

#[test]
fn pcr_delta_wraps() {
    assert_eq!(pcr_delta(100, 40), 60);
    assert_eq!(pcr_delta(40, 100), 8_589_934_592 - 60);
    assert_eq!(pcr_delta(0, 8_589_934_591), 1);
}

#[test]
fn store_window_and_media_sequence() {
    let mut store = SegmentStore::new(90000, 2);
    store.continuous_segment(1000, true, 0);
    assert_eq!(store.media_sequence, 0);
    store.continuous_segment(91000, true, 0);
    store.continuous_segment(181000, true, 0);
    assert_eq!(store.segments.len(), 2);
    assert_eq!(store.media_sequence, 1);
    store.continuous_segment(271000, true, 0);
    assert_eq!(store.segments.len(), 2);
    assert_eq!(store.media_sequence, 2);
}

#[test]
fn manifest_counts_match_store() {
    let mut store = SegmentStore::new(90000, 5);
    store.continuous_segment(0, true, 0);
    store.continuous_segment(90000, true, 0);
    store.continuous_segment(180000, true, 0);
    let body = store.get_manifest_text().unwrap();
    let inf_count = body.matches("#EXTINF:").count();
    assert_eq!(inf_count, 2);
    assert!(body.contains("#EXT-X-MEDIA-SEQUENCE:0\n"));
    assert!(body.contains("#EXT-X-TARGETDURATION:1\n"));
    assert!(body.starts_with("#EXTM3U\n#EXT-X-VERSION:9\n"));
}

#[test]
fn fragmenter_clock_recovery() {
    let mut w = Mp4fWriter::new(90000);
    assert_eq!(w.translate_timestamp(1000), None);
    w.handle_pcr(90000 + 500, 5_000_000_000);
    // The reading lands one second in the past: value 500.
    assert_eq!(w.latest_pcr_value, Some(500));
    assert_eq!(w.latest_pcr_datetime, Some(4_000_000_000));
    assert_eq!(w.translate_timestamp(1500), Some(1000));
    w.handle_pcr(90000 + 950, 6_000_000_000);
    assert_eq!(w.latest_pcr_value, Some(950));
    assert_eq!(w.latest_pcr_timestamp_90khz, 450);
    assert_eq!(w.latest_pcr_datetime, Some(4_000_000_000 + 450 * 100000 / 9));
}

#[test]
fn continuity_resyncs_to_received_counter() {
    let mut demuxer = Demuxer::new();
    let header = |cc: u8| PacketHeader {
        pid: Pid::Other(0x0101),
        pusi: false,
        continuity_counter: cc,
        adaptation_control: AdaptationControl::PayloadOnly,
        pcr: None,
        header_size: 4,
    };
    assert!(demuxer.check_continutiy(&header(5))); // first packet seeds
    assert!(!demuxer.check_continutiy(&header(9))); // out of order, warns once
    assert!(demuxer.check_continutiy(&header(10))); // resynced: 9 + 1
    assert!(demuxer.check_continutiy(&header(11)));
}

#[test]
fn mux_serializes_every_parameter_set() {
    let sps1 = Unit { ref_idc: 3, kind: UnitType::Sps, data: vec![0x64, 0x00] };
    let sps2 = Unit { ref_idc: 3, kind: UnitType::Sps, data: vec![0x64, 0x01] };
    let pps = Unit { ref_idc: 3, kind: UnitType::Pps, data: vec![0xEB] };
    let mut dcr = DecoderConfigurationRecord::default();
    dcr.profile_indication = 100;
    dcr.sps = vec![sps1, sps2];
    dcr.pps = vec![pps];
    let mut bytes = Vec::new();
    dcr.mux(&mut bytes);
    assert_eq!(bytes[5], 0xE2); // two sequence parameter sets
    let parsed = DecoderConfigurationRecord::try_from_bytes(&bytes).unwrap();
    assert_eq!(parsed.sps.len(), 2);
    assert_eq!(parsed.sps[1].data, vec![0x64, 0x01]);
    assert_eq!(parsed.pps.len(), 1);
}

#[test]
fn fragment_layout_is_boxed() {
    let content = vec![1u8, 2, 3, 4];
    let sample = TrunSample {
        duration: 3000,
        size: 4,
        composition_time_offset: Some(0),
        keyframe: true,
    };
    let frag = write_fragment(1, 90000, sample, &content);
    // moof of 108 bytes, then the mdat with the four content bytes.
    assert_eq!(&frag[4..8], b"moof");
    assert_eq!(frag[3], 108);
    assert_eq!(&frag[112..116], b"mdat");
    assert_eq!(&frag[116..], &content[..]);
}

#[test]
fn session_table_round_trip() {
    let mut table = SessionTable::new();
    assert_eq!(table.process_request(Request::RegisterTrigger(7)).len(), 0);
    let actions = table.process_request(Request::Create(String::from("cam")));
    assert_eq!(actions, vec![Action::NotifyTrigger(7, 0), Action::ReplyHandle(0)]);
    let joined = table.process_request(Request::Join(String::from("cam")));
    assert_eq!(joined, vec![Action::ReplyJoin(0)]);
    assert_eq!(table.process_request(Request::Release(String::from("cam"))).len(), 0);
    assert_eq!(table.process_request(Request::Join(String::from("cam"))).len(), 0);
}

#[test]
fn store_lookup_window() {
    let mut store = SegmentStore::new(90000, 2);
    store.continuous_segment(0, true, 0);
    store.continuous_segment(90000, true, 0);
    store.continuous_segment(180000, true, 0); // evicts segment 0
    assert!(store.segment(0).is_some()); // still in the outdated tail
    assert!(store.segment(1).is_some());
    assert!(store.segment(2).is_some());
    assert!(store.segment(3).is_none());
    assert_eq!(store.segment(1).unwrap().begin_pts, 90000);
    // Partial 0 of segment 1 is complete; the live front has no end yet.
    assert!(store.partial(1, 0).is_some());
    assert!(store.partial(2, 1).is_none());
}
