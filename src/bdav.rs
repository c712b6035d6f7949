use crate::error::Error;
use crate::parser::{MpegTsParser, Packet};
use crate::pes::{is_graphics_pid, PesUnitKind};
use crate::slice_reader::{be32, SliceReader};
use vstd::prelude::*;

verus! {

/// The 4-byte prefix of a BDAV packet.
#[derive(Debug, Clone, Copy, PartialEq, Eq, Structural)]
pub struct BdavPacketHeader {
    /// Copy protection indicator (2 bits).
    pub cpi: u8,
    /// Arrival time stamp, 27 MHz (30 bits).
    pub timestamp: u32,
}

/// The prefix that the first four bytes of `b` encode.
pub open spec fn bdav_header_of(b: Seq<u8>) -> BdavPacketHeader {
    BdavPacketHeader { cpi: b[0] >> 6u8, timestamp: (be32(b) as u32) & 0x3fffffff }
}

/// A parsed 192-byte BDAV packet.
#[derive(Debug)]
pub struct BdavPacket<'a> {
    pub header: BdavPacketHeader,
    /// The transport packet that follows the prefix.
    pub packet: Packet<'a>,
}

/// Parser for BDAV (M2TS) streams: a transport stream parser whose Blu-Ray graphics PIDs
/// (0x1200..=0x121F, 0x1400..=0x141F and 0x1800) hand their PES units to the graphics segment
/// decoder.
pub struct BdavParser(MpegTsParser);

impl BdavParser {
    /// The transport stream parser inside.
    pub closed spec fn inner(&self) -> MpegTsParser {
        self.0
    }

    /// Well-formed when the parser inside is.
    pub open spec fn wf(&self) -> bool {
        self.inner().wf()
    }

    /// A parser with nothing pending, whose graphics PIDs hand their PES units to the
    /// graphics segment decoder.
    pub fn new() -> (r: Self)
        ensures
            r.wf(),
            r.inner().pending() == Map::<u16, crate::payload_unit::PayloadUnitBuilder>::empty(),
            r.inner().pmt_pids() == Set::<u16>::empty(),
            forall|p: u16| #[trigger] r.inner().factories().contains_key(p) == is_graphics_pid(p),
            forall|p: u16| is_graphics_pid(p) ==> #[trigger] r.inner().factories()[p] == PesUnitKind::PgSegments,
    {
        let mut inner = MpegTsParser::new();
        inner.register_pes_unit_factory_range(0x1200, 0x121f, PesUnitKind::PgSegments);
        inner.register_pes_unit_factory_range(0x1400, 0x141f, PesUnitKind::PgSegments);
        inner.register_pes_unit_factory(0x1800, PesUnitKind::PgSegments);
        BdavParser(inner)
    }

    /// Hands the PES units that start on `pid` to the decoder `kind`.
    pub fn register_pes_unit_factory(&mut self, pid: u16, kind: PesUnitKind)
        requires
            old(self).wf(),
        ensures
            final(self).wf(),
            final(self).inner().factories() == old(self).inner().factories().insert(pid, kind),
    {
        self.0.register_pes_unit_factory(pid, kind);
    }

    /// Hands the PES units that start on each PID of `pids` to the decoder `kind`.
    pub fn register_pes_unit_factory_iter(&mut self, pids: &[u16], kind: PesUnitKind)
        requires
            old(self).wf(),
        ensures
            final(self).wf(),
            forall|p: u16| #[trigger] final(self).inner().factories().contains_key(p) == (old(self).inner().factories().contains_key(p)
                || pids@.contains(p)),
            forall|p: u16| pids@.contains(p) ==> #[trigger] final(self).inner().factories()[p] == kind,
            forall|p: u16| !pids@.contains(p) && old(self).inner().factories().contains_key(p)
                ==> #[trigger] final(self).inner().factories()[p] == old(self).inner().factories()[p],
    {
        let mut i: usize = 0;
        while i < pids.len()
            invariant
                i <= pids@.len(),
                self.wf(),
                forall|p: u16| #[trigger] self.inner().factories().contains_key(p) == (old(self).inner().factories().contains_key(p)
                    || pids@.subrange(0, i as int).contains(p)),
                forall|p: u16| pids@.subrange(0, i as int).contains(p) ==> #[trigger] self.inner().factories()[p] == kind,
                forall|p: u16| !pids@.subrange(0, i as int).contains(p) && old(self).inner().factories().contains_key(p)
                    ==> #[trigger] self.inner().factories()[p] == old(self).inner().factories()[p],
            decreases pids@.len() - i,
        {
            let ghost prev = self.inner().factories();
            self.0.register_pes_unit_factory(pids[i], kind);
            proof {
                let cur = self.inner().factories();
                assert(cur == prev.insert(pids@[i as int], kind));
                assert forall|p: u16| pids@.subrange(0, i + 1).contains(p) == (pids@.subrange(0, i as int).contains(p)
                    || p == pids@[i as int]) by {
                    if pids@.subrange(0, i + 1).contains(p) {
                        let k = choose|k: int| 0 <= k < i + 1 && #[trigger] pids@.subrange(0, i + 1)[k] == p;
                        if k < i {
                            assert(pids@.subrange(0, i as int)[k] == p);
                        }
                    }
                    if pids@.subrange(0, i as int).contains(p) {
                        let k = choose|k: int| 0 <= k < i && #[trigger] pids@.subrange(0, i as int)[k] == p;
                        assert(pids@.subrange(0, i + 1)[k] == p);
                    }
                    if p == pids@[i as int] {
                        assert(pids@.subrange(0, i + 1)[i as int] == p);
                    }
                }
                assert forall|p: u16| #[trigger] cur.contains_key(p) == (old(self).inner().factories().contains_key(p)
                    || pids@.subrange(0, i + 1).contains(p)) by {
                    assert(prev.contains_key(p) == (old(self).inner().factories().contains_key(p)
                        || pids@.subrange(0, i as int).contains(p)));
                }
                assert forall|p: u16| !pids@.subrange(0, i + 1).contains(p) && old(self).inner().factories().contains_key(p)
                    implies #[trigger] cur[p] == old(self).inner().factories()[p] by {
                    assert(!pids@.subrange(0, i as int).contains(p));
                    assert(p != pids@[i as int]);
                    assert(prev[p] == old(self).inner().factories()[p]);
                }
                assert forall|p: u16| pids@.subrange(0, i + 1).contains(p) implies #[trigger] cur[p] == kind by {
                    if p != pids@[i as int] {
                        assert(pids@.subrange(0, i as int).contains(p));
                        assert(prev[p] == kind);
                    }
                }
            }
            i = i + 1;
        }
        assert(pids@.subrange(0, i as int) =~= pids@);
    }

    /// Whether `pid` is known to carry program map tables.
    pub fn is_known_pmt_pid(&self, pid: u16) -> (r: bool)
        ensures
            r == self.inner().pmt_pids().contains(pid),
    {
        self.0.is_known_pmt_pid(pid)
    }

    /// Parses one 192-byte BDAV packet: the 4-byte prefix, then the transport packet, whose
    /// errors report offsets within the 192 bytes.
    pub fn parse<'a>(&mut self, packet: &'a [u8; 192]) -> (r: Result<BdavPacket<'a>, Error>)
        requires
            old(self).wf(),
        ensures
            final(self).wf(),
            ({
                let inner_r = match r {
                    Ok(b) => Ok::<Packet<'a>, Error>(b.packet),
                    Err(e) => Err::<Packet<'a>, Error>(e),
                };
                MpegTsParser::parse_post(
                    old(self).inner(),
                    final(self).inner(),
                    packet@.subrange(4, 192),
                    4,
                    inner_r,
                )
            }),
            r is Ok ==> r->Ok_0.header == bdav_header_of(packet@),
    {
        let mut reader = SliceReader::new(packet.as_slice());
        let b = reader.read(4)?;
        assert(b@ =~= packet@.subrange(0, 4));
        let header = BdavPacketHeader {
            cpi: b[0] >> 6u8,
            timestamp: (b[0] as u32 * 0x1000000 + b[1] as u32 * 0x10000 + b[2] as u32 * 0x100
                + b[3] as u32) & 0x3fffffff,
        };
        match self.0.parse_internal(reader) {
            Ok(p) => Ok(BdavPacket { header, packet: p }),
            Err(e) => Err(e),
        }
    }
}

impl Default for BdavParser {
    /// A parser with nothing pending.
    fn default() -> (r: Self)
        ensures
            r.wf(),
            r.inner().pending() == Map::<u16, crate::payload_unit::PayloadUnitBuilder>::empty(),
            r.inner().pmt_pids() == Set::<u16>::empty(),
    {
        BdavParser::new()
    }
}

} // verus!
