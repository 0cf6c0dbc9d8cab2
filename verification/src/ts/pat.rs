//! The Program Association Table: the list of (program number, PMT PID).

use vstd::prelude::*;
use crate::reader::{spec_read_be, spec_read_u8, Cursor};
use crate::ts::error::DemuxError;
use crate::ts::pid::{spec_pid_from, Pid};

verus! {

/// One program of the association: its number and the PID of its PMT.
#[derive(Clone, Copy, PartialEq, Eq, Debug, Structural)]
pub struct Program {
    pub program_number: u16,
    pub program_pid: Pid,
}

/// The parsed PAT.  Only the first program is consulted downstream.
#[derive(Clone, Debug)]
pub struct PAT {
    pub table_id: u8,
    pub section_length: u16,
    pub stream_id: u16,
    pub programs: Vec<Program>,
}

/// Mirror of the program-loop: `n` entries of four bytes each.
pub open spec fn spec_parse_programs(s: Seq<u8>, pos: int, n: int) -> Option<(Seq<Program>, int)>
    decreases n,
{
    if n <= 0 {
        Some((Seq::empty(), pos))
    } else {
        match spec_read_be(s, pos, 2) {
            None => None,
            Some((num, p1)) => match spec_read_be(s, p1, 2) {
                None => None,
                Some((pv, p2)) => {
                    let prog = Program {
                        program_number: num as u16,
                        program_pid: spec_pid_from((pv % 8192) as u16),
                    };
                    match spec_parse_programs(s, p2, n - 1) {
                        None => None,
                        Some((rest, pend)) => Some((seq![prog] + rest, pend)),
                    }
                },
            },
        }
    }
}

/// Mirror of the PAT parse.  The section must carry the two reserved bits
/// set and a length that covers its own header and CRC.
pub open spec fn spec_parse_pat(s: Seq<u8>, pos: int) -> Option<(Seq<Program>, int)> {
    match spec_read_u8(s, pos) {
        None => None,
        Some((_table_id, p1)) => match spec_read_be(s, p1, 2) {
            None => None,
            Some((sl, p2)) => {
                let section_length = sl % 4096;
                match spec_read_be(s, p2, 2) {
                    None => None,
                    Some((_stream_id, p3)) => match spec_read_u8(s, p3) {
                        None => None,
                        Some((reserved, p4)) => {
                            if (reserved / 64) % 4 != 3 {
                                None
                            } else if p4 + 2 > s.len() {
                                None
                            } else if section_length < 9 {
                                None
                            } else {
                                spec_parse_programs(s, p4 + 2, ((section_length - 9) / 4) as int)
                            }
                        },
                    },
                }
            },
        },
    }
}

impl PAT {
    /// Parse a PAT section at the cursor.
    pub fn try_new(reader: &mut Cursor) -> (r: Result<PAT, DemuxError>)
        requires
            old(reader).wf(),
        ensures
            final(reader).data == old(reader).data,
            final(reader).wf(),
            match spec_parse_pat(old(reader).data@, old(reader).pos as int) {
                Some((progs, p)) => r matches Ok(pat) && pat.programs@ == progs
                    && final(reader).pos == p,
                None => r == Err::<PAT, DemuxError>(DemuxError::NotEnoughData),
            },
    {
        let table_id = match reader.read_u8() {
            Some(b) => b,
            None => {
                return Err(DemuxError::NotEnoughData);
            },
        };
        let section_length = match reader.read_be(2) {
            Some(v) => (v % 4096) as u16,
            None => {
                return Err(DemuxError::NotEnoughData);
            },
        };
        let stream_id = match reader.read_be(2) {
            Some(v) => v as u16,
            None => {
                return Err(DemuxError::NotEnoughData);
            },
        };
        let reserved = match reader.read_u8() {
            Some(b) => b,
            None => {
                return Err(DemuxError::NotEnoughData);
            },
        };
        if (reserved / 64) % 4 != 3 {
            return Err(DemuxError::NotEnoughData);
        }
        // Section number and last section number.
        if !reader.skip(2) {
            return Err(DemuxError::NotEnoughData);
        }
        if section_length < 9 {
            return Err(DemuxError::NotEnoughData);
        }
        let n: usize = ((section_length - 9) / 4) as usize;
        let ghost s = reader.data@;
        let ghost pos0 = reader.pos as int;
        let mut programs: Vec<Program> = Vec::new();
        let mut i: usize = 0;
        proof {
            assert(spec_parse_pat(s, old(reader).pos as int) == spec_parse_programs(
                s,
                pos0,
                n as int,
            ));
        }
        while i < n
            invariant
                reader.wf(),
                reader.data == old(reader).data,
                reader.data@ == s,
                i <= n,
                spec_parse_pat(s, old(reader).pos as int) == spec_parse_programs(
                    s,
                    pos0,
                    n as int,
                ),
                programs@.len() == i,
                match spec_parse_programs(s, reader.pos as int, (n - i) as int) {
                    Some((rest, pend)) => spec_parse_programs(s, pos0, n as int) == Some(
                        (programs@ + rest, pend),
                    ),
                    None => spec_parse_programs(s, pos0, n as int) is None,
                },
            decreases n - i,
        {
            let ghost pre_pos = reader.pos as int;
            let num = match reader.read_be(2) {
                Some(v) => v as u16,
                None => {
                    return Err(DemuxError::NotEnoughData);
                },
            };
            let pv = match reader.read_be(2) {
                Some(v) => v,
                None => {
                    return Err(DemuxError::NotEnoughData);
                },
            };
            let prog = Program {
                program_number: num,
                program_pid: Pid::from((pv % 8192) as u16),
            };
            proof {
                let m = (n - i) as int;
                match spec_parse_programs(s, reader.pos as int, m - 1) {
                    Some((rest, pend)) => {
                        assert(spec_parse_programs(s, pre_pos, m) == Some(
                            (seq![prog] + rest, pend),
                        ));
                        assert(programs@ + (seq![prog] + rest) =~= programs@.push(prog) + rest);
                    },
                    None => {},
                }
            }
            programs.push(prog);
            i = i + 1;
        }
        proof {
            assert(programs@ + Seq::<Program>::empty() =~= programs@);
        }
        Ok(PAT { table_id, section_length, stream_id, programs })
    }
}

} // verus!
