use crate::error::{no_lost_sync, Error, ErrorDetails};
use crate::payload_unit::{
    same_unit, unit_accumulating, unit_bytes, PayloadUnit, PayloadUnitBuilder,
};
use crate::pes::{start_pes, Pes, PesUnitData, PesUnitKind};
use crate::pg::BdavParserStorage;
use crate::psi::{psi_header_of, section_finish_post, Psi, PsiBuilder, PsiHeader, PsiTableSyntax};
use crate::slice_reader::SliceReader;
use std::collections::{HashMap, HashSet};
use vstd::prelude::*;

verus! {

broadcast use vstd::std_specs::hash::group_hash_axioms;

/// How a packet's payload is scrambled.
#[derive(Debug, Clone, Copy, PartialEq, Eq, Structural)]
pub enum TransportScramblingControl {
    NotScrambled,
    Reserved,
    ScrambledEvenKey,
    ScrambledOddKey,
}

/// The scrambling control that a two-bit field encodes.
pub open spec fn tsc_of(v: u8) -> TransportScramblingControl {
    if v == 0 {
        TransportScramblingControl::NotScrambled
    } else if v == 1 {
        TransportScramblingControl::Reserved
    } else if v == 2 {
        TransportScramblingControl::ScrambledEvenKey
    } else {
        TransportScramblingControl::ScrambledOddKey
    }
}

fn tsc_from_bits(v: u8) -> (r: TransportScramblingControl)
    ensures
        r == tsc_of(v),
{
    if v == 0 {
        TransportScramblingControl::NotScrambled
    } else if v == 1 {
        TransportScramblingControl::Reserved
    } else if v == 2 {
        TransportScramblingControl::ScrambledEvenKey
    } else {
        TransportScramblingControl::ScrambledOddKey
    }
}

/// The link-layer header at the start of every transport packet.
#[derive(Debug, Clone, Copy, PartialEq, Eq, Structural)]
pub struct PacketHeader {
    pub sync_byte: u8,
    pub tei: bool,
    pub pusi: bool,
    pub priority: bool,
    pub pid: u16,
    pub tsc: TransportScramblingControl,
    pub has_adaptation_field: bool,
    pub has_payload: bool,
    pub continuity_counter: u8,
}

/// The header that the first four bytes of `b` encode.
pub open spec fn packet_header_of(b: Seq<u8>) -> PacketHeader {
    PacketHeader {
        sync_byte: b[0],
        tei: (b[1] >> 7u8) & 1 == 1,
        pusi: (b[1] >> 6u8) & 1 == 1,
        priority: (b[1] >> 5u8) & 1 == 1,
        pid: (((b[1] & 0x1f) as u16) << 8u16) | (b[2] as u16),
        tsc: tsc_of(b[3] >> 6u8),
        has_adaptation_field: (b[3] >> 5u8) & 1 == 1,
        has_payload: (b[3] >> 4u8) & 1 == 1,
        continuity_counter: b[3] & 0xf,
    }
}

impl PacketHeader {
    /// Decodes the first four bytes of `b`.
    pub fn from_bytes(b: &[u8]) -> (r: PacketHeader)
        requires
            b@.len() >= 4,
        ensures
            r == packet_header_of(b@),
    {
        PacketHeader {
            sync_byte: b[0],
            tei: (b[1] >> 7u8) & 1 == 1,
            pusi: (b[1] >> 6u8) & 1 == 1,
            priority: (b[1] >> 5u8) & 1 == 1,
            pid: (((b[1] & 0x1f) as u16) << 8u16) | (b[2] as u16),
            tsc: tsc_from_bits(b[3] >> 6u8),
            has_adaptation_field: (b[3] >> 5u8) & 1 == 1,
            has_payload: (b[3] >> 4u8) & 1 == 1,
            continuity_counter: b[3] & 0xf,
        }
    }
}

/// Length and flags of an adaptation field.
#[derive(Debug, Clone, Copy, PartialEq, Eq, Structural)]
pub struct AdaptationFieldHeader {
    /// Number of bytes that follow the length byte.
    pub length: u8,
    pub discontinuity: bool,
    pub random_access: bool,
    pub priority: bool,
    pub has_pcr: bool,
    pub has_opcr: bool,
    pub has_splice_countdown: bool,
    pub has_transport_private_data: bool,
    pub has_adaptation_field_extension: bool,
}

/// The adaptation field header that the first two bytes of `b` encode.
pub open spec fn af_header_of(b: Seq<u8>) -> AdaptationFieldHeader {
    AdaptationFieldHeader {
        length: b[0],
        discontinuity: (b[1] >> 7u8) & 1 == 1,
        random_access: (b[1] >> 6u8) & 1 == 1,
        priority: (b[1] >> 5u8) & 1 == 1,
        has_pcr: (b[1] >> 4u8) & 1 == 1,
        has_opcr: (b[1] >> 3u8) & 1 == 1,
        has_splice_countdown: (b[1] >> 2u8) & 1 == 1,
        has_transport_private_data: (b[1] >> 1u8) & 1 == 1,
        has_adaptation_field_extension: b[1] & 1 == 1,
    }
}

impl AdaptationFieldHeader {
    /// Decodes the first two bytes of `b`.
    pub fn from_bytes(b: &[u8]) -> (r: AdaptationFieldHeader)
        requires
            b@.len() >= 2,
        ensures
            r == af_header_of(b@),
    {
        AdaptationFieldHeader {
            length: b[0],
            discontinuity: (b[1] >> 7u8) & 1 == 1,
            random_access: (b[1] >> 6u8) & 1 == 1,
            priority: (b[1] >> 5u8) & 1 == 1,
            has_pcr: (b[1] >> 4u8) & 1 == 1,
            has_opcr: (b[1] >> 3u8) & 1 == 1,
            has_splice_countdown: (b[1] >> 2u8) & 1 == 1,
            has_transport_private_data: (b[1] >> 1u8) & 1 == 1,
            has_adaptation_field_extension: b[1] & 1 == 1,
        }
    }
}

/// A program clock reference: a 33-bit 90 kHz base and a 9-bit 27 MHz extension.
#[derive(Debug, Clone, Copy, PartialEq, Eq, Structural)]
pub struct PcrTimestamp {
    pub base: u64,
    pub extension: u16,
}

/// The clock reference packed into the first six bytes of `b`.
pub open spec fn pcr_of(b: Seq<u8>) -> PcrTimestamp {
    PcrTimestamp {
        base: ((b[0] as u64) << 25u64) | ((b[1] as u64) << 17u64) | ((b[2] as u64) << 9u64) | ((
        b[3] as u64) << 1u64) | ((b[4] as u64) >> 7u64),
        extension: (((b[4] & 1) as u16) << 8u16) | (b[5] as u16),
    }
}

/// Decodes a clock reference from six bytes.
pub fn parse_pcr(b: &[u8]) -> (r: PcrTimestamp)
    requires
        b@.len() >= 6,
    ensures
        r == pcr_of(b@),
{
    PcrTimestamp {
        base: ((b[0] as u64) << 25u64) | ((b[1] as u64) << 17u64) | ((b[2] as u64) << 9u64) | ((
        b[3] as u64) << 1u64) | ((b[4] as u64) >> 7u64),
        extension: (((b[4] & 1) as u16) << 8u16) | (b[5] as u16),
    }
}

/// Metadata carried beside or instead of a payload.
#[derive(Debug, Clone, Copy, PartialEq, Eq, Structural)]
pub struct AdaptationField {
    pub header: AdaptationFieldHeader,
    /// Program clock reference.
    pub pcr: Option<PcrTimestamp>,
    /// Original program clock reference.
    pub opcr: Option<PcrTimestamp>,
}

/// Whether the adaptation field at the start of `s` is well formed: its length is in 1..=183
/// and fits, and the flagged clock references fit inside it.
pub open spec fn af_valid(s: Seq<u8>) -> bool {
    let h = af_header_of(s);
    &&& s.len() >= 2
    &&& 1 <= h.length <= 183
    &&& s.len() >= 1 + h.length
    &&& h.length - 1 >= (if h.has_pcr { 6int } else { 0 }) + (if h.has_opcr { 6int } else { 0 })
}

/// The adaptation field at the start of `s`, where it is well formed.
pub open spec fn af_of(s: Seq<u8>) -> AdaptationField {
    let h = af_header_of(s);
    let opcr_at: int = if h.has_pcr { 8 } else { 2 };
    AdaptationField {
        header: h,
        pcr: if h.has_pcr { Some(pcr_of(s.subrange(2, 8))) } else { None },
        opcr: if h.has_opcr { Some(pcr_of(s.subrange(opcr_at, opcr_at + 6))) } else { None },
    }
}

/// Reads an adaptation field.
pub fn read_adaptation_field(reader: &mut SliceReader) -> (r: Result<AdaptationField, Error>)
    ensures
        no_lost_sync(r),
        r is Ok <==> af_valid(old(reader).rest()),
        r is Ok ==> {
            &&& r->Ok_0 == af_of(old(reader).rest())
            &&& SliceReader::advanced(
                *old(reader),
                *final(reader),
                1 + af_header_of(old(reader).rest()).length,
            )
        },
        r is Err ==> *final(reader) == *old(reader) || r->Err_0.details
            == ErrorDetails::BadAdaptationHeader,
        old(reader).rest().len() >= 2 && r is Err ==> r->Err_0.details == ErrorDetails::BadAdaptationHeader,
        old(reader).rest().len() < 2 ==> r is Err && r->Err_0.details == ErrorDetails::PacketOverrun(2),
{
    let ghost s = reader.rest();
    let hb = reader.read(2)?;
    let header = AdaptationFieldHeader::from_bytes(hb);
    assert(hb@ =~= s.subrange(0, 2));
    let adaptation_field_length = header.length as usize;
    if !(1 <= adaptation_field_length && adaptation_field_length <= 183) {
        return Err(reader.make_error(ErrorDetails::BadAdaptationHeader));
    }
    let mut a_reader = match reader.new_sub_reader(adaptation_field_length - 1) {
        Ok(a) => a,
        Err(_) => {
            return Err(reader.make_error(ErrorDetails::BadAdaptationHeader));
        },
    };
    assert(a_reader.rest() =~= s.subrange(2, 1 + adaptation_field_length));
    assert(reader.rest() =~= s.subrange(1 + adaptation_field_length, s.len() as int));
    let mut pcr: Option<PcrTimestamp> = None;
    let mut opcr: Option<PcrTimestamp> = None;
    if header.has_pcr {
        if a_reader.remaining_len() < 6 {
            return Err(reader.make_error(ErrorDetails::BadAdaptationHeader));
        }
        let b = a_reader.read(6)?;
        assert(b@ =~= s.subrange(2, 8));
        pcr = Some(parse_pcr(b));
    }
    if header.has_opcr {
        if a_reader.remaining_len() < 6 {
            return Err(reader.make_error(ErrorDetails::BadAdaptationHeader));
        }
        let ghost at: int = if header.has_pcr { 8 } else { 2 };
        let b = a_reader.read(6)?;
        assert(b@ =~= s.subrange(at, at + 6));
        opcr = Some(parse_pcr(b));
    }
    Ok(AdaptationField { header, pcr, opcr })
}

/// A packet's payload, as far as it could be decoded.
#[derive(Debug)]
pub enum Payload<'a> {
    /// A payload this parser does not handle, left unread.
    Raw(SliceReader<'a>),
    /// Part of a PSI section that is not complete yet.
    PsiPending,
    /// A complete PSI section.
    Psi(Psi),
    /// Part of a PES unit that is not complete yet.
    PesPending,
    /// A complete PES unit.
    Pes(Pes),
}

/// One parsed transport packet.
#[derive(Debug)]
pub struct Packet<'a> {
    pub header: PacketHeader,
    pub adaptation_field: Option<AdaptationField>,
    pub payload: Option<Payload<'a>>,
}

/// The section a unit's payload result holds, as a result of its own.
pub open spec fn payload_psi<'a>(r: Result<Payload<'a>, Error>) -> Result<Psi, Error> {
    match r {
        Ok(Payload::Psi(p)) => Ok(p),
        Ok(_) => Err(Error { location: 0, details: ErrorDetails::BadPsiHeader }),
        Err(e) => Err(e),
    }
}

/// The payload of a packet result, as a result of its own.
pub open spec fn packet_payload<'a>(r: Result<Packet<'a>, Error>) -> Result<Payload<'a>, Error> {
    match r {
        Ok(pk) => match pk.payload {
            Some(pl) => Ok(pl),
            None => Err(Error { location: 0, details: ErrorDetails::BadPsiHeader }),
        },
        Err(e) => Err(e),
    }
}

/// A completed PES unit `u` with plain payload is returned with its headers and time stamps
/// and with `bytes` as its data.
pub open spec fn pes_completed<'a>(u: Pes, bytes: Seq<u8>, r: Result<Payload<'a>, Error>) -> bool {
    u.data is Raw ==> {
        &&& r is Ok && r->Ok_0 is Pes
        &&& r->Ok_0->Pes_0.header == u.header
        &&& r->Ok_0->Pes_0.optional_header == u.optional_header
        &&& r->Ok_0->Pes_0.pts == u.pts
        &&& r->Ok_0->Pes_0.dts == u.dts
        &&& r->Ok_0->Pes_0.data is Raw
        &&& r->Ok_0->Pes_0.data->Raw_0@ == bytes
    }
}

/// What completing unit `u` with received `bytes` on `pid` promises.
pub open spec fn unit_completed<'a>(
    u: PayloadUnit,
    bytes: Seq<u8>,
    pid: u16,
    pmt0: Set<u16>,
    pmt1: Set<u16>,
    r: Result<Payload<'a>, Error>,
) -> bool {
    match u {
        PayloadUnit::Psi(b) => section_finish_post(
            b.location,
            b.header,
            b.table_syntax,
            b.prefix@,
            bytes,
            pid,
            pmt0,
            pmt1,
            payload_psi(r),
        ),
        PayloadUnit::Pes(p) => pes_completed(p, bytes, r) && pmt1 == pmt0,
    }
}

/// Whether the PSI start at the front of a unit-start payload decodes: pointer, filler and
/// header, and table syntax with `section_length >= 9` unless the section is empty.
pub open spec fn psi_start_ok(q: Seq<u8>) -> bool {
    let at = 1 + q[0];
    q.len() >= 1 && q.len() >= at + 3 && (psi_header_of(q.subrange(at, at + 3)).section_length == 0
        || (q.len() >= at + 8 && psi_header_of(q.subrange(at, at + 3)).section_length >= 9))
}

/// Whether the section that a unit-start payload begins ends within it.
pub open spec fn section_fits(q: Seq<u8>) -> bool {
    let at = 1 + q[0];
    let l = psi_header_of(q.subrange(at, at + 3)).section_length;
    l == 0 || l - 5 <= q.len() - (at + 8)
}

/// What finishing the section that a unit-start payload holds whole promises, the section
/// starting at offset `loc` of the packet.
pub open spec fn start_section_post(
    q: Seq<u8>,
    loc: int,
    pid: u16,
    pmt0: Set<u16>,
    pmt1: Set<u16>,
    r: Result<Psi, Error>,
) -> bool {
    let at = 1 + q[0];
    let l = psi_header_of(q.subrange(at, at + 3)).section_length;
    section_finish_post(
        loc as usize,
        psi_header_of(q.subrange(at, at + 3)),
        if l == 0 { None } else { Some(crate::psi::psi_table_syntax_of(q.subrange(at + 3, at + 8))) },
        if l == 0 { q.subrange(at, at + 3) } else { q.subrange(at, at + 8) },
        if l == 0 { Seq::empty() } else { q.subrange(at + 8, at + 8 + l - 5) },
        pid,
        pmt0,
        pmt1,
        r,
    )
}

/// Whether a unit start on `pid` carries a PSI section: PID 0 or a known PMT PID.
pub open spec fn is_psi_pid(pid: u16, pmt_pids: Set<u16>) -> bool {
    pid == 0 || pmt_pids.contains(pid)
}

/// Whether a payload starts a PES unit of known length: the `00 00 01` prefix, a whole
/// 6-byte header, and a `packet_length` other than 0.
pub open spec fn starts_bounded_pes(q: Seq<u8>) -> bool {
    q.len() >= 6 && q[0] == 0 && q[1] == 0 && q[2] == 1 && !(q[4] == 0 && q[5] == 0)
}

/// The header bytes before the unit data at the start of a unit-start payload: pointer,
/// filler, section header and table syntax for PSI; PES header and optional header for PES.
pub open spec fn unit_header_len(q: Seq<u8>, psi: bool) -> int {
    if psi {
        1 + q[0] + 8
    } else {
        6 + (if crate::pes::has_optional_header(crate::pes::pes_header_of(q)) { 3 + q[8] } else { 0int })
    }
}

/// The unit data bytes that a unit-start payload declares: `section_length - 5` for PSI (CRC
/// included), `packet_length` less the optional header for PES.
pub open spec fn declared_unit_len(q: Seq<u8>, psi: bool) -> int {
    if psi {
        psi_header_of(q.subrange(1 + q[0], 4 + q[0])).section_length - 5
    } else {
        crate::pes::pes_header_of(q).packet_length - (if crate::pes::has_optional_header(crate::pes::pes_header_of(q)) {
            3 + q[8]
        } else {
            0int
        })
    }
}

/// Offset within a packet of its payload.
pub open spec fn payload_offset(p: Seq<u8>) -> int {
    if packet_header_of(p).has_adaptation_field {
        5 + p[4]
    } else {
        4
    }
}

/// Transport stream parser: holds the units being reassembled, keyed by PID, and the PIDs that
/// the last PAT named as program map tables.
pub struct MpegTsParser {
    pending_payload_units: HashMap<u16, PayloadUnitBuilder>,
    known_pmt_pids: HashSet<u16>,
    pes_factories: HashMap<u16, PesUnitKind>,
    app_parser_storage: BdavParserStorage,
}

impl MpegTsParser {
    /// The units being reassembled, by PID.
    pub closed spec fn pending(&self) -> Map<u16, PayloadUnitBuilder> {
        self.pending_payload_units@
    }

    /// The PIDs known to carry program map tables.
    pub closed spec fn pmt_pids(&self) -> Set<u16> {
        self.known_pmt_pids@
    }

    /// The decoder registered for the PES units of each PID; other PIDs keep plain bytes.
    pub closed spec fn factories(&self) -> Map<u16, PesUnitKind> {
        self.pes_factories@
    }

    /// The fragments of graphics segments that span several PES units.
    pub closed spec fn storage(&self) -> BdavParserStorage {
        self.app_parser_storage
    }

    /// Every unit being reassembled still expects bytes and can finish.
    pub open spec fn wf(&self) -> bool {
        &&& forall|pid: u16| #[trigger]
            self.pending().contains_key(pid) ==> self.pending()[pid].wf()
                && self.pending()[pid].remaining > 0
        &&& self.storage().wf()
    }

    /// A parser with nothing pending, no PMT PIDs known and no PES decoders registered.
    pub fn new() -> (r: Self)
        ensures
            r.wf(),
            r.pending() == Map::<u16, PayloadUnitBuilder>::empty(),
            r.pmt_pids() == Set::<u16>::empty(),
            r.factories() == Map::<u16, PesUnitKind>::empty(),
    {
        MpegTsParser {
            pending_payload_units: HashMap::new(),
            known_pmt_pids: HashSet::new(),
            pes_factories: HashMap::new(),
            app_parser_storage: BdavParserStorage::new(),
        }
    }

    /// Hands the PES units that start on `pid` to the decoder `kind`.
    pub fn register_pes_unit_factory(&mut self, pid: u16, kind: PesUnitKind)
        requires
            old(self).wf(),
        ensures
            final(self).wf(),
            final(self).factories() == old(self).factories().insert(pid, kind),
            final(self).pending() == old(self).pending(),
            final(self).pmt_pids() == old(self).pmt_pids(),
    {
        self.pes_factories.insert(pid, kind);
    }

    /// Hands the PES units that start on any PID of `first..=last` to the decoder `kind`.
    pub fn register_pes_unit_factory_range(&mut self, first: u16, last: u16, kind: PesUnitKind)
        requires
            old(self).wf(),
        ensures
            final(self).wf(),
            forall|p: u16| #[trigger] final(self).factories().contains_key(p) == (old(self).factories().contains_key(p)
                || first <= p <= last),
            forall|p: u16| first <= p <= last ==> #[trigger] final(self).factories()[p] == kind,
            forall|p: u16| !(first <= p <= last) && old(self).factories().contains_key(p)
                ==> #[trigger] final(self).factories()[p] == old(self).factories()[p],
            final(self).pending() == old(self).pending(),
            final(self).pmt_pids() == old(self).pmt_pids(),
    {
        if first > last {
            return;
        }
        let mut i: u32 = first as u32;
        while i <= last as u32
            invariant
                first <= i <= last as u32 + 1,
                self.wf(),
                forall|p: u16| #[trigger] self.factories().contains_key(p) == (old(self).factories().contains_key(p)
                    || first <= p < i),
                forall|p: u16| first <= p < i ==> #[trigger] self.factories()[p] == kind,
                forall|p: u16| !(first <= p < i) && old(self).factories().contains_key(p)
                    ==> #[trigger] self.factories()[p] == old(self).factories()[p],
                self.pending() == old(self).pending(),
                self.pmt_pids() == old(self).pmt_pids(),
            decreases last as u32 + 1 - i,
        {
            self.register_pes_unit_factory(i as u16, kind);
            i = i + 1;
        }
    }

    /// Whether `pid` is known to carry program map tables.
    pub fn is_known_pmt_pid(&self, pid: u16) -> (r: bool)
        ensures
            r == self.pmt_pids().contains(pid),
    {
        self.known_pmt_pids.contains(&pid)
    }

    /// Whether a unit is being reassembled on `pid`.
    pub fn has_pending(&self, pid: u16) -> (r: bool)
        ensures
            r == self.pending().contains_key(pid),
    {
        self.pending_payload_units.contains_key(&pid)
    }

    /// The units on PIDs other than `pid` are the same in both states.
    pub open spec fn others_kept(a: Self, b: Self, pid: u16) -> bool {
        forall|q: u16|
            q != pid ==> (#[trigger] b.pending().contains_key(q) == a.pending().contains_key(q)
                && (b.pending().contains_key(q) ==> b.pending()[q] == a.pending()[q]))
    }

    /// The set of PMT PIDs changed only because a PAT on PID 0 completed.
    pub open spec fn pmt_kept_unless_pat<'a>(
        a: Self,
        b: Self,
        pid: u16,
        r: Result<Payload<'a>, Error>,
    ) -> bool {
        b.pmt_pids() != a.pmt_pids() ==> r is Ok && pid == 0 && r->Ok_0 is Psi
            && r->Ok_0->Psi_0.data is Pat
    }

    /// Finishes a complete unit.
    fn finish_unit<'a>(&mut self, builder: PayloadUnitBuilder, pid: u16) -> (r: Result<
        Payload<'a>,
        Error,
    >)
        requires
            builder.wf(),
            builder.remaining == 0,
            old(self).storage().wf(),
        ensures
            no_lost_sync(r),
            final(self).storage().wf(),
            final(self).pending() == old(self).pending(),
            final(self).factories() == old(self).factories(),
            r is Ok ==> (builder.unit is Psi ==> r->Ok_0 is Psi) && (builder.unit is Pes
                ==> r->Ok_0 is Pes),
            final(self).pmt_pids() != old(self).pmt_pids() ==> r is Ok && pid == 0
                && r->Ok_0 is Psi && r->Ok_0->Psi_0.data is Pat,
            unit_completed(builder.unit, unit_bytes(builder.unit), pid, old(self).pmt_pids(), final(self).pmt_pids(), r),
    {
        match builder.unit {
            PayloadUnit::Psi(b) => {
                let psi = b.finish(pid, &mut self.known_pmt_pids)?;
                Ok(Payload::Psi(psi))
            },
            PayloadUnit::Pes(mut pes) => {
                match &mut pes.data {
                    PesUnitData::Pg(seg) => {
                        seg.finish(&mut self.app_parser_storage)?;
                    },
                    PesUnitData::Raw(_) => {},
                }
                Ok(Payload::Pes(pes))
            },
        }
    }

    /// Starts a unit on `pid` with the bytes left in `reader`, replacing any unit pending
    /// there. Finishes it at once when those bytes complete it.
    fn start_payload_unit<'a>(
        &mut self,
        obj: PayloadUnit,
        length: usize,
        pid: u16,
        reader: &mut SliceReader<'a>,
    ) -> (r: Result<Payload<'a>, Error>)
        requires
            old(self).wf(),
            unit_accumulating(obj),
            unit_bytes(obj) == Seq::<u8>::empty(),
            obj is Psi && obj->Psi_0.table_syntax is Some ==> length >= 4,
        ensures
            no_lost_sync(r),
            final(self).wf(),
            final(self).factories() == old(self).factories(),
            forall|q: u16|
                q != pid ==> (#[trigger] final(self).pending().contains_key(q) == old(self).pending().contains_key(q) && (final(self).pending().contains_key(q)
                    ==> final(self).pending()[q] == old(self).pending()[q])),
            final(self).pmt_pids() != old(self).pmt_pids() ==> r is Ok && pid == 0
                && r->Ok_0 is Psi && r->Ok_0->Psi_0.data is Pat,
            r is Ok && (r->Ok_0 is PsiPending || r->Ok_0 is PesPending) <==> final(self).pending().contains_key(pid),
            final(self).pending().contains_key(pid) ==> {
                let e = final(self).pending()[pid];
                &&& same_unit(obj, e.unit)
                &&& unit_bytes(e.unit) == old(reader).rest()
                &&& e.remaining == length - old(reader).rest().len()
            },
            r is Ok ==> !(r->Ok_0 is Raw),
            r is Err ==> final(self).pending() == old(self).pending().remove(pid),
            length <= old(reader).rest().len() ==> unit_completed(
                obj,
                old(reader).rest().subrange(0, length as int),
                pid,
                old(self).pmt_pids(),
                final(self).pmt_pids(),
                r,
            ),
            length > old(reader).rest().len() ==> final(self).pmt_pids() == old(self).pmt_pids(),
    {
        let mut builder = PayloadUnitBuilder::new(obj, length);
        let done = builder.append(reader)?;
        proof {
            assert(unit_bytes(builder.unit) =~= Seq::<u8>::empty() + unit_bytes(builder.unit));
        }
        self.pending_payload_units.remove(&pid);
        if done {
            self.finish_unit(builder, pid)
        } else {
            let pending = match &builder.unit {
                PayloadUnit::Psi(_) => Payload::PsiPending,
                PayloadUnit::Pes(_) => Payload::PesPending,
            };
            self.pending_payload_units.insert(pid, builder);
            Ok(pending)
        }
    }
}

/// Reads the start of a PSI section: pointer field and filler, header, and table syntax when
/// the section is not empty. Returns the section with an empty body and, when it is not empty,
/// the number of body bytes it declares (CRC included).
pub fn start_psi(reader: &mut SliceReader) -> (r: Result<(PsiBuilder, Option<usize>), Error>)
    ensures
        no_lost_sync(r),
        match r {
            Ok((b, len)) => {
                let s = old(reader).rest();
                let at = 1 + s[0];
                let h = psi_header_of(s.subrange(at, at + 3));
                &&& s.len() >= at + 3
                &&& b.header == h
                &&& b.location == old(reader).pos() + at
                &&& b.data@ == Seq::<u8>::empty()
                &&& if h.section_length == 0 {
                    &&& len is None
                    &&& b.table_syntax is None
                    &&& b.prefix@ == s.subrange(at, at + 3)
                    &&& SliceReader::advanced(*old(reader), *final(reader), at + 3)
                } else {
                    &&& h.section_length >= 9
                    &&& s.len() >= at + 8
                    &&& len == Some((h.section_length - 5) as usize)
                    &&& b.table_syntax == Some(
                        crate::psi::psi_table_syntax_of(s.subrange(at + 3, at + 8)),
                    )
                    &&& b.prefix@ == s.subrange(at, at + 8)
                    &&& SliceReader::advanced(*old(reader), *final(reader), at + 8)
                }
            },
            Err(e) => e.details == ErrorDetails::BadPsiHeader,
        },
        ({
            let s = old(reader).rest();
            let at = 1 + s[0];
            r is Ok <==> s.len() >= 1 && s.len() >= at + 3 && (psi_header_of(s.subrange(at, at + 3)).section_length == 0
                || (s.len() >= at + 8 && psi_header_of(s.subrange(at, at + 3)).section_length >= 9))
        }),
{
    let ghost s = reader.rest();
    if reader.remaining_len() < 1 {
        return Err(reader.make_error(ErrorDetails::BadPsiHeader));
    }
    let pointer_field = match reader.read_u8() {
        Ok(v) => v,
        Err(_) => {
            return Err(reader.make_error(ErrorDetails::BadPsiHeader));
        },
    };
    if reader.remaining_len() < pointer_field as usize + 3 {
        return Err(reader.make_error(ErrorDetails::BadPsiHeader));
    }
    let _ = reader.skip(pointer_field as usize);
    let ghost at = 1 + pointer_field;
    assert(reader.rest() =~= s.subrange(at, s.len() as int));
    let location = reader.location();
    let header_bytes = match reader.read(3) {
        Ok(b) => b,
        Err(_) => {
            return Err(reader.make_error(ErrorDetails::BadPsiHeader));
        },
    };
    assert(header_bytes@ =~= s.subrange(at, at + 3));
    let header = PsiHeader::from_bytes(header_bytes);
    let mut prefix: Vec<u8> = Vec::new();
    prefix.extend_from_slice(header_bytes);
    assert(prefix@ =~= s.subrange(at, at + 3));
    let section_length = header.section_length;
    if section_length == 0 {
        assert(reader.rest() =~= s.subrange(at + 3, s.len() as int));
        assert(location == old(reader).pos() + at);
        let data: Vec<u8> = Vec::new();
        assert(data@ == Seq::<u8>::empty());
        assert(header == psi_header_of(s.subrange(at, at + 3)));
        return Ok((
            PsiBuilder { location, header, table_syntax: None, prefix, data: Vec::new() },
            None,
        ));
    }
    if reader.remaining_len() < 5 || section_length < 9 {
        return Err(reader.make_error(ErrorDetails::BadPsiHeader));
    }
    let syntax_bytes = match reader.read(5) {
        Ok(b) => b,
        Err(_) => {
            return Err(reader.make_error(ErrorDetails::BadPsiHeader));
        },
    };
    assert(syntax_bytes@ =~= s.subrange(at + 3, at + 8));
    let table_syntax = PsiTableSyntax::from_bytes(syntax_bytes);
    prefix.extend_from_slice(syntax_bytes);
    assert(prefix@ =~= s.subrange(at, at + 8));
    let table_length = (section_length - 5) as usize;
    assert(reader.rest() =~= s.subrange(at + 8, s.len() as int));
    assert(location == old(reader).pos() + at);
    assert(header == psi_header_of(s.subrange(at, at + 3)));
    Ok((
        PsiBuilder { location, header, table_syntax: Some(table_syntax), prefix, data: Vec::new() },
        Some(table_length),
    ))
}

/// Whether the first three bytes of `b` are the PES start code prefix.
fn is_pes(b: &[u8]) -> (r: bool)
    requires
        b@.len() >= 3,
    ensures
        r == (b@[0] == 0 && b@[1] == 0 && b@[2] == 1),
{
    b[0] == 0 && b[1] == 0 && b[2] == 1
}

impl MpegTsParser {
    /// Adds the payload of a packet without a unit start to the unit pending on its PID. A
    /// payload on a PID with nothing pending is left raw.
    fn continue_payload_unit<'a>(&mut self, pid: u16, reader: SliceReader<'a>) -> (r: Result<
        Payload<'a>,
        Error,
    >)
        requires
            old(self).wf(),
        ensures
            no_lost_sync(r),
            final(self).wf(),
            final(self).factories() == old(self).factories(),
            Self::others_kept(*old(self), *final(self), pid),
            Self::pmt_kept_unless_pat(*old(self), *final(self), pid, r),
            !old(self).pending().contains_key(pid) ==> r is Ok && r->Ok_0 is Raw
                && r->Ok_0->Raw_0 == reader && final(self).pending() == old(self).pending(),
            old(self).pending().contains_key(pid) ==> {
                let e = old(self).pending()[pid];
                let n = if reader.rest().len() <= e.remaining {
                    reader.rest().len() as int
                } else {
                    e.remaining as int
                };
                &&& (final(self).pending().contains_key(pid) <==> n < e.remaining)
                &&& final(self).pending().contains_key(pid) ==> {
                    let e2 = final(self).pending()[pid];
                    &&& r is Ok && (r->Ok_0 is PsiPending || r->Ok_0 is PesPending)
                    &&& same_unit(e.unit, e2.unit)
                    &&& unit_bytes(e2.unit) == unit_bytes(e.unit) + reader.rest().subrange(0, n)
                    &&& e2.remaining == e.remaining - n
                }
                &&& r is Ok ==> !(r->Ok_0 is Raw)
            },
            r is Ok ==> ((r->Ok_0 is PsiPending || r->Ok_0 is PesPending) <==> final(self).pending().contains_key(pid)),
            r is Err ==> final(self).pending() == old(self).pending().remove(pid),
            old(self).pending().contains_key(pid) && !final(self).pending().contains_key(pid) ==> {
                let e = old(self).pending()[pid];
                unit_completed(
                    e.unit,
                    unit_bytes(e.unit) + reader.rest().subrange(0, e.remaining as int),
                    pid,
                    old(self).pmt_pids(),
                    final(self).pmt_pids(),
                    r,
                )
            },
    {
        let mut reader = reader;
        match self.pending_payload_units.remove(&pid) {
            None => Ok(Payload::Raw(reader)),
            Some(builder) => {
                let mut builder = builder;
                let done = builder.append(&mut reader)?;
                if done {
                    self.finish_unit(builder, pid)
                } else {
                    let pending = match &builder.unit {
                        PayloadUnit::Psi(_) => Payload::PsiPending,
                        PayloadUnit::Pes(_) => Payload::PesPending,
                    };
                    self.pending_payload_units.insert(pid, builder);
                    Ok(pending)
                }
            },
        }
    }

    /// Classifies the payload of a packet on `pid` and feeds it to reassembly. A PES unit that
    /// declares `packet_length` 0 (unbounded, as video streams may) has no length to reassemble
    /// by, so its packet is left raw.
    fn read_payload<'a>(&mut self, pusi: bool, pid: u16, reader: SliceReader<'a>) -> (r: Result<
        Payload<'a>,
        Error,
    >)
        requires
            old(self).wf(),
        ensures
            no_lost_sync(r),
            final(self).wf(),
            final(self).factories() == old(self).factories(),
            Self::others_kept(*old(self), *final(self), pid),
            Self::pmt_kept_unless_pat(*old(self), *final(self), pid, r),
            r is Ok && r->Ok_0 is Raw ==> r->Ok_0->Raw_0 == reader,
            r is Err ==> final(self).pending() == old(self).pending() || final(self).pending()
                == old(self).pending().remove(pid),
            !pusi ==> (!old(self).pending().contains_key(pid) <==> r is Ok && r->Ok_0 is Raw),
            !pusi && !old(self).pending().contains_key(pid) ==> final(self).pending() == old(self).pending(),
            r is Ok ==> ((r->Ok_0 is PsiPending || r->Ok_0 is PesPending) <==> final(self).pending().contains_key(pid)),
            pusi && r is Ok && final(self).pending().contains_key(pid) ==> {
                let b = unit_bytes(final(self).pending()[pid].unit);
                &&& b.len() <= reader.rest().len()
                &&& b == reader.rest().subrange(reader.rest().len() - b.len(), reader.rest().len() as int)
            },
            pusi && r is Ok && r->Ok_0 is Raw ==> !final(self).pending().contains_key(pid),
            !pusi && old(self).pending().contains_key(pid) && final(self).pending().contains_key(pid) ==> {
                let q = reader.rest();
                let e = old(self).pending()[pid];
                let e2 = final(self).pending()[pid];
                &&& q.len() < e.remaining
                &&& unit_bytes(e2.unit) == unit_bytes(e.unit) + q
                &&& e2.remaining == e.remaining - q.len()
            },
            pusi && is_psi_pid(pid, old(self).pmt_pids()) && psi_start_ok(reader.rest()) && section_fits(
                reader.rest(),
            ) ==> start_section_post(
                reader.rest(),
                reader.pos() + 1 + reader.rest()[0],
                pid,
                old(self).pmt_pids(),
                final(self).pmt_pids(),
                payload_psi(r),
            ),
            !pusi && old(self).pending().contains_key(pid) && !final(self).pending().contains_key(pid) ==> {
                let e = old(self).pending()[pid];
                unit_completed(
                    e.unit,
                    unit_bytes(e.unit) + reader.rest().subrange(0, e.remaining as int),
                    pid,
                    old(self).pmt_pids(),
                    final(self).pmt_pids(),
                    r,
                )
            },
            pusi && !is_psi_pid(pid, old(self).pmt_pids()) && !starts_bounded_pes(reader.rest())
                ==> r is Ok && r->Ok_0 is Raw && r->Ok_0->Raw_0 == reader,
            pusi && r is Ok && final(self).pending().contains_key(pid) ==> {
                let q = reader.rest();
                let psi = is_psi_pid(pid, old(self).pmt_pids());
                let e = final(self).pending()[pid];
                &&& 0 <= unit_header_len(q, psi) <= q.len()
                &&& unit_bytes(e.unit) == q.subrange(unit_header_len(q, psi), q.len() as int)
                &&& e.remaining == declared_unit_len(q, psi) - (q.len() - unit_header_len(q, psi))
            },
    {
        let mut reader = reader;
        if pusi {
            if pid == 0 || self.known_pmt_pids.contains(&pid) {
                let ghost q = reader.rest();
                let (b, len) = start_psi(&mut reader)?;
                proof {
                    let at = 1 + q[0];
                    let l = psi_header_of(q.subrange(at, at + 3)).section_length;
                    if l > 0 && l - 5 <= reader.rest().len() {
                        assert(reader.rest().subrange(0, l - 5) =~= q.subrange(at + 8, at + 8 + l - 5));
                    }
                }
                match len {
                    Some(l) => self.start_payload_unit(PayloadUnit::Psi(b), l, pid, &mut reader),
                    None => {
                        self.pending_payload_units.remove(&pid);
                        let psi = b.finish(pid, &mut self.known_pmt_pids)?;
                        Ok(Payload::Psi(psi))
                    },
                }
            } else if reader.remaining_len() >= 6 && is_pes(reader.peek(3)?) {
                let head = reader.peek(6)?;
                if head[4] == 0 && head[5] == 0 {
                    self.pending_payload_units.remove(&pid);
                    return Ok(Payload::Raw(reader));
                }
                let kind = match self.pes_factories.get(&pid) {
                    Some(k) => *k,
                    None => PesUnitKind::Raw,
                };
                let (pes, unit_length) = start_pes(&mut reader, kind)?;
                self.start_payload_unit(PayloadUnit::Pes(pes), unit_length, pid, &mut reader)
            } else {
                self.pending_payload_units.remove(&pid);
                Ok(Payload::Raw(reader))
            }
        } else {
            assert(reader.rest().subrange(0, reader.rest().len() as int) =~= reader.rest());
            self.continue_payload_unit(pid, reader)
        }
    }
}

impl MpegTsParser {
    /// What parsing the 188 bytes `p` promises, for a reader that started at offset `base`.
    pub open spec fn parse_post<'a>(
        a: Self,
        b: Self,
        p: Seq<u8>,
        base: int,
        r: Result<Packet<'a>, Error>,
    ) -> bool {
        let h = packet_header_of(p);
        &&& b.wf()
        &&& b.factories() == a.factories()
        &&& Self::others_kept(a, b, h.pid)
        &&& b.pmt_pids() != a.pmt_pids() ==> r is Ok && h.pid == 0 && (r->Ok_0.payload matches Some(
            Payload::Psi(psi),
        ) && psi.data is Pat)
        &&& p[0] != 0x47 ==> r == Err::<Packet<'a>, Error>(
            Error { location: (base + 4) as usize, details: ErrorDetails::LostSync },
        )
        &&& r is Err && r->Err_0.details == ErrorDetails::LostSync ==> p[0] != 0x47
        &&& p[0] == 0x47 && h.pid != 0x1fff && h.pusi && h.has_payload && (h.has_adaptation_field
            ==> af_valid(p.subrange(4, 188))) && !is_psi_pid(h.pid, a.pmt_pids()) && !starts_bounded_pes(
            p.subrange(payload_offset(p), 188),
        ) ==> (r is Ok && r->Ok_0.payload matches Some(Payload::Raw(_)))
        &&& p[0] == 0x47 && h.pid != 0x1fff && h.has_payload && (h.has_adaptation_field ==> af_valid(
            p.subrange(4, 188),
        )) && h.pusi && is_psi_pid(h.pid, a.pmt_pids()) && psi_start_ok(p.subrange(payload_offset(p), 188))
            && section_fits(p.subrange(payload_offset(p), 188)) ==> start_section_post(
            p.subrange(payload_offset(p), 188),
            base + payload_offset(p) + 1 + p[payload_offset(p)],
            h.pid,
            a.pmt_pids(),
            b.pmt_pids(),
            payload_psi(packet_payload(r)),
        )
        &&& p[0] == 0x47 && h.pid != 0x1fff && h.has_payload && (h.has_adaptation_field ==> af_valid(
            p.subrange(4, 188),
        )) && !h.pusi && a.pending().contains_key(h.pid) && !b.pending().contains_key(h.pid) ==> unit_completed(
            a.pending()[h.pid].unit,
            unit_bytes(a.pending()[h.pid].unit) + p.subrange(payload_offset(p), 188).subrange(
                0,
                a.pending()[h.pid].remaining as int,
            ),
            h.pid,
            a.pmt_pids(),
            b.pmt_pids(),
            packet_payload(r),
        )
        &&& r is Ok && h.pid != 0x1fff && h.has_payload && h.pusi && b.pending().contains_key(h.pid) ==> {
            let q = p.subrange(payload_offset(p), 188);
            let psi = is_psi_pid(h.pid, a.pmt_pids());
            let e = b.pending()[h.pid];
            &&& unit_bytes(e.unit) == q.subrange(unit_header_len(q, psi), q.len() as int)
            &&& e.remaining == declared_unit_len(q, psi) - (q.len() - unit_header_len(q, psi))
        }
        &&& r is Ok && h.pid != 0x1fff && h.has_payload && !h.pusi && a.pending().contains_key(h.pid)
            && b.pending().contains_key(h.pid) ==> {
            let q = p.subrange(payload_offset(p), 188);
            let e = a.pending()[h.pid];
            let e2 = b.pending()[h.pid];
            &&& q.len() < e.remaining
            &&& unit_bytes(e2.unit) == unit_bytes(e.unit) + q
            &&& e2.remaining == e.remaining - q.len()
        }
        &&& r is Err ==> b.pmt_pids() == a.pmt_pids() && (b.pending() == a.pending()
            || b.pending() == a.pending().remove(h.pid))
        &&& r is Ok ==> {
            let pk = r->Ok_0;
            &&& pk.header == h
            &&& pk.header.sync_byte == 0x47
            &&& h.pid == 0x1fff ==> pk.adaptation_field is None && pk.payload is None && b == a
            &&& h.pid != 0x1fff ==> {
                &&& pk.adaptation_field is Some <==> h.has_adaptation_field
                &&& h.has_adaptation_field ==> af_valid(p.subrange(4, 188))
                    && pk.adaptation_field == Some(af_of(p.subrange(4, 188)))
                &&& pk.payload is Some <==> h.has_payload
            }
            &&& pk.payload matches Some(Payload::Raw(rd)) ==> {
                &&& rd.pos() == base + payload_offset(p)
                &&& rd.rest() == p.subrange(payload_offset(p), 188)
            }
            &&& pk.payload is Some ==> ((pk.payload matches Some(Payload::PsiPending)
                || pk.payload matches Some(Payload::PesPending)) <==> b.pending().contains_key(h.pid))
            &&& pk.payload is Some && h.pusi && b.pending().contains_key(h.pid) ==> {
                let u = unit_bytes(b.pending()[h.pid].unit);
                &&& u.len() <= 188 - payload_offset(p)
                &&& u == p.subrange(188 - u.len(), 188)
            }
        }
        &&& p[0] == 0x47 && h.pid != 0x1fff && h.has_adaptation_field && !af_valid(
            p.subrange(4, 188),
        ) ==> r is Err
        &&& p[0] == 0x47 && h.pid == 0x1fff ==> r is Ok
        &&& p[0] == 0x47 && h.pid != 0x1fff && !h.pusi && h.has_payload && (h.has_adaptation_field
            ==> af_valid(p.subrange(4, 188))) ==> (!a.pending().contains_key(h.pid) <==> (r is Ok
            && r->Ok_0.payload matches Some(Payload::Raw(_))))
    }

    /// Parses a 188-byte transport packet that `reader` holds.
    pub fn parse_internal<'a>(&mut self, reader: SliceReader<'a>) -> (r: Result<Packet<'a>, Error>)
        requires
            old(self).wf(),
            reader.rest().len() == 188,
        ensures
            Self::parse_post(*old(self), *final(self), reader.rest(), reader.pos(), r),
    {
        let ghost p = reader.rest();
        let ghost old_reader = reader;
        let mut reader = reader;
        let hb = reader.read(4)?;
        assert(hb@ =~= p.subrange(0, 4));
        let header = PacketHeader::from_bytes(hb);
        if header.sync_byte != 0x47 {
            return Err(reader.make_error(ErrorDetails::LostSync));
        }
        let pid = header.pid;
        let mut out = Packet { header, adaptation_field: None, payload: None };
        if pid == 0x1fff {
            return Ok(out);
        }
        assert(reader.rest() =~= p.subrange(4, 188));
        if header.has_adaptation_field {
            out.adaptation_field = Some(read_adaptation_field(&mut reader)?);
        }
        assert(reader.rest() =~= p.subrange(payload_offset(p), 188));
        assert(reader.pos() == old_reader.pos() + payload_offset(p));
        let ghost payload_reader = reader;
        if header.has_payload {
            out.payload = Some(self.read_payload(header.pusi, pid, reader)?);
        }
        proof {
            if out.payload is Some && header.pusi && self.pending().contains_key(pid) {
                let u = unit_bytes(self.pending()[pid].unit);
                let q = payload_reader.rest();
                assert(q.subrange(q.len() - u.len(), q.len() as int) =~= p.subrange(188 - u.len(), 188));
            }
        }
        Ok(out)
    }

    /// Parses one 188-byte transport packet. Units that span packets are reassembled across
    /// calls: until the last packet of a unit arrives its payload reads as pending.
    pub fn parse<'a>(&mut self, packet: &'a [u8; 188]) -> (r: Result<Packet<'a>, Error>)
        requires
            old(self).wf(),
        ensures
            Self::parse_post(*old(self), *final(self), packet@, 0, r),
    {
        let reader = SliceReader::new(packet.as_slice());
        self.parse_internal(reader)
    }
}

impl Default for MpegTsParser {
    /// A parser with nothing pending and no PES decoders registered.
    fn default() -> (r: Self)
        ensures
            r.wf(),
            r.pending() == Map::<u16, PayloadUnitBuilder>::empty(),
            r.pmt_pids() == Set::<u16>::empty(),
            r.factories() == Map::<u16, PesUnitKind>::empty(),
    {
        MpegTsParser::new()
    }
}

} // verus!
