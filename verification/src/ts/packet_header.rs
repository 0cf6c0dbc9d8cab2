//! The 4-byte MPEG-TS packet header, with its adaptation field.

use vstd::prelude::*;
use crate::reader::{be_value, pow256, spec_read_u8, Cursor};
use crate::ts::error::DemuxError;
use crate::ts::pid::{spec_pid_from, Pid};

verus! {

/// What the packet carries after its header.
#[derive(Clone, Copy, PartialEq, Eq, Debug, Structural)]
pub enum AdaptationControl {
    Reserved,
    PayloadOnly,
    AdaptationFieldOnly,
    AdaptationFieldAndPayload,
}

/// The adaptation control denoted by the two header bits.
pub open spec fn spec_adaptation_control(v: u8) -> AdaptationControl {
    if v % 4 == 0 {
        AdaptationControl::Reserved
    } else if v % 4 == 1 {
        AdaptationControl::PayloadOnly
    } else if v % 4 == 2 {
        AdaptationControl::AdaptationFieldOnly
    } else {
        AdaptationControl::AdaptationFieldAndPayload
    }
}

impl AdaptationControl {
    /// Build from the two-bit field value.
    pub fn from_bits(val: u8) -> (r: AdaptationControl)
        requires
            val < 4,
        ensures
            r == spec_adaptation_control(val),
    {
        if val == 0 {
            AdaptationControl::Reserved
        } else if val == 1 {
            AdaptationControl::PayloadOnly
        } else if val == 2 {
            AdaptationControl::AdaptationFieldOnly
        } else {
            AdaptationControl::AdaptationFieldAndPayload
        }
    }

    /// Whether a payload follows the header.
    pub fn has_payload(&self) -> (r: bool)
        ensures
            r == (self is PayloadOnly || self is AdaptationFieldAndPayload),
    {
        match self {
            AdaptationControl::Reserved | AdaptationControl::AdaptationFieldOnly => false,
            AdaptationControl::PayloadOnly | AdaptationControl::AdaptationFieldAndPayload => true,
        }
    }
}

/// The parsed packet header: PID, payload-unit-start indicator, continuity
/// counter, adaptation control, and the PCR base when one was present.
#[derive(Clone, Copy, PartialEq, Eq, Debug, Structural)]
pub struct PacketHeader {
    pub pid: Pid,
    pub pusi: bool,
    pub continuity_counter: u8,
    pub adaptation_control: AdaptationControl,
    pub pcr: Option<u64>,
    pub header_size: i64,
}

/// The 33-bit PCR base held in the adaptation field at `pos`: the top 33
/// bits of the first five bytes; the 9-bit extension in the last two bytes
/// is discarded.  Seven bytes are consumed in all.
pub open spec fn spec_read_pcr(s: Seq<u8>, pos: int) -> Option<(u64, int)> {
    if 0 <= pos && pos + 7 <= s.len() {
        Some(((be_value(s.subrange(pos, pos + 5)) / 128) as u64, pos + 7))
    } else {
        None
    }
}

/// Mirror of the packet-header parse, starting right after the sync byte.
pub open spec fn spec_parse_packet_header(s: Seq<u8>, pos: int) -> Option<(PacketHeader, int)> {
    match spec_read_u8(s, pos) {
        None => None,
        Some((b2, p1)) => match spec_read_u8(s, p1) {
            None => None,
            Some((b3, p2)) => match spec_read_u8(s, p2) {
                None => None,
                Some((b4, p3)) => {
                    let pid = spec_pid_from(((b2 % 32) as u16 * 256 + b3 as u16) as u16);
                    let pusi = (b2 / 64) % 2 == 1;
                    let ac = spec_adaptation_control((b4 / 16) % 4);
                    let cc = (b4 % 16) as u8;
                    if ac is AdaptationFieldOnly || ac is AdaptationFieldAndPayload {
                        spec_parse_adaptation(s, p3, pid, pusi, cc, ac)
                    } else {
                        Some(
                            (
                                PacketHeader {
                                    pid,
                                    pusi,
                                    continuity_counter: cc,
                                    adaptation_control: ac,
                                    pcr: None,
                                    header_size: 4,
                                },
                                p3,
                            ),
                        )
                    }
                },
            },
        },
    }
}

/// Mirror of the adaptation-field walk: length, flag byte, optional PCR,
/// then a skip over the remaining stuffing.  A length that does not cover
/// the fields already read is a parse failure.
pub open spec fn spec_parse_adaptation(
    s: Seq<u8>,
    pos: int,
    pid: Pid,
    pusi: bool,
    cc: u8,
    ac: AdaptationControl,
) -> Option<(PacketHeader, int)> {
    match spec_read_u8(s, pos) {
        None => None,
        Some((l, p4)) => {
            if l == 0 {
                Some(
                    (
                        PacketHeader {
                            pid,
                            pusi,
                            continuity_counter: cc,
                            adaptation_control: ac,
                            pcr: None,
                            header_size: 4,
                        },
                        p4,
                    ),
                )
            } else {
                match spec_read_u8(s, p4) {
                    None => None,
                    Some((flags, p5)) => {
                        if (flags / 16) % 2 == 1 {
                            match spec_read_pcr(s, p5) {
                                None => None,
                                Some((pcr, p6)) => {
                                    if l < 8 || p6 + (l - 8) > s.len() {
                                        None
                                    } else {
                                        Some(
                                            (
                                                PacketHeader {
                                                    pid,
                                                    pusi,
                                                    continuity_counter: cc,
                                                    adaptation_control: ac,
                                                    pcr: Some(pcr),
                                                    header_size: (4 + (l - 8)) as i64,
                                                },
                                                p6 + (l - 8),
                                            ),
                                        )
                                    }
                                },
                            }
                        } else {
                            if p5 + (l - 1) > s.len() {
                                None
                            } else {
                                Some(
                                    (
                                        PacketHeader {
                                            pid,
                                            pusi,
                                            continuity_counter: cc,
                                            adaptation_control: ac,
                                            pcr: None,
                                            header_size: (4 + (l - 1)) as i64,
                                        },
                                        p5 + (l - 1),
                                    ),
                                )
                            }
                        }
                    },
                }
            }
        },
    }
}

impl PacketHeader {
    /// Parse the header behind the sync byte; the cursor is left past the
    /// adaptation field, at the start of the payload.
    pub fn try_new(reader: &mut Cursor) -> (r: Result<PacketHeader, DemuxError>)
        requires
            old(reader).wf(),
        ensures
            final(reader).data == old(reader).data,
            final(reader).wf(),
            match spec_parse_packet_header(old(reader).data@, old(reader).pos as int) {
                Some((h, p)) => r == Ok::<PacketHeader, DemuxError>(h) && final(reader).pos == p,
                None => r == Err::<PacketHeader, DemuxError>(DemuxError::NotEnoughData),
            },
    {
        let b2 = match reader.read_u8() {
            Some(b) => b,
            None => {
                return Err(DemuxError::NotEnoughData);
            },
        };
        let b3 = match reader.read_u8() {
            Some(b) => b,
            None => {
                return Err(DemuxError::NotEnoughData);
            },
        };
        let b4 = match reader.read_u8() {
            Some(b) => b,
            None => {
                return Err(DemuxError::NotEnoughData);
            },
        };
        let pid: Pid = Pid::from((b2 % 32) as u16 * 256 + b3 as u16);
        let pusi = (b2 / 64) % 2 == 1;
        let adaptation_control = AdaptationControl::from_bits((b4 / 16) % 4);
        let continuity_counter = b4 % 16;

        let mut pcr: Option<u64> = None;
        let mut header_size: i64 = 4;

        if adaptation_control == AdaptationControl::AdaptationFieldOnly || adaptation_control
            == AdaptationControl::AdaptationFieldAndPayload {
            let adapt_length = match reader.read_u8() {
                Some(b) => b,
                None => {
                    return Err(DemuxError::NotEnoughData);
                },
            };
            if adapt_length != 0 {
                let adapt_fields = match reader.read_u8() {
                    Some(b) => b,
                    None => {
                        return Err(DemuxError::NotEnoughData);
                    },
                };
                let pcr_flag = (adapt_fields / 16) % 2 == 1;
                let mut rem: usize = adapt_length as usize - 1;
                if pcr_flag {
                    match Self::read_pcr(reader) {
                        Some(v) => {
                            pcr = Some(v);
                        },
                        None => {
                            return Err(DemuxError::NotEnoughData);
                        },
                    }
                    if rem < 7 {
                        return Err(DemuxError::NotEnoughData);
                    }
                    rem = rem - 7;
                }
                if !reader.skip(rem) {
                    return Err(DemuxError::NotEnoughData);
                }
                header_size = header_size + rem as i64;
            }
        }

        Ok(PacketHeader { pid, pusi, continuity_counter, adaptation_control, pcr, header_size })
    }

    /// Read the PCR bytes and return the 33-bit base.
    fn read_pcr(reader: &mut Cursor) -> (r: Option<u64>)
        requires
            old(reader).wf(),
        ensures
            final(reader).data == old(reader).data,
            final(reader).wf(),
            match spec_read_pcr(old(reader).data@, old(reader).pos as int) {
                Some((v, p)) => r == Some(v) && v < 0x2_0000_0000 && final(reader).pos == p,
                None => r is None && final(reader).pos == old(reader).pos,
            },
    {
        let save = reader.pos;
        let base = match reader.read_be(5) {
            Some(v) => v,
            None => {
                return None;
            },
        };
        match reader.read_be(2) {
            Some(_ext) => {},
            None => {
                reader.pos = save;
                return None;
            },
        }
        proof {
            crate::reader::lemma_be_value_bound(old(reader).data@.subrange(save as int, save + 5));
            assert(pow256(5) == 0x100_0000_0000) by {
                reveal_with_fuel(pow256, 6);
            }
        }
        Some(base / 128)
    }
}

} // verus!
