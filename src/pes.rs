use crate::error::{no_lost_sync, Error, ErrorDetails};
use crate::pg::PgSegmentData;
use crate::slice_reader::{be16, be24, SliceReader};
use vstd::prelude::*;

verus! {

/// Fixed header of a PES unit.
#[derive(Debug, Clone, Copy, PartialEq, Eq, Structural)]
pub struct PesHeader {
    /// Always 0x000001.
    pub start_code: u32,
    pub stream_id: u8,
    /// Number of bytes that follow this field; 0 where unbounded.
    pub packet_length: u16,
}

/// The PES header that the first six bytes of `b` encode.
pub open spec fn pes_header_of(b: Seq<u8>) -> PesHeader {
    PesHeader {
        start_code: be24(b) as u32,
        stream_id: b[3],
        packet_length: be16(b.subrange(4, 6)) as u16,
    }
}

impl PesHeader {
    /// Decodes the first six bytes of `b`.
    pub fn from_bytes(b: &[u8]) -> (r: PesHeader)
        requires
            b@.len() >= 6,
        ensures
            r == pes_header_of(b@),
    {
        PesHeader {
            start_code: b[0] as u32 * 0x10000 + b[1] as u32 * 0x100 + b[2] as u32,
            stream_id: b[3],
            packet_length: b[4] as u16 * 0x100 + b[5] as u16,
        }
    }
}

/// Optional header of a PES unit.
#[derive(Debug, Clone, Copy, PartialEq, Eq, Structural)]
pub struct PesOptionalHeader {
    pub marker_bits: u8,
    pub scrambling_control: u8,
    pub priority: bool,
    pub data_alignment_indicator: bool,
    pub copyright: bool,
    pub original: bool,
    pub has_pts: bool,
    pub has_dts: bool,
    pub escr: bool,
    pub es_rate: bool,
    pub dsm_trick_mode: bool,
    pub has_additional_copy_info: bool,
    pub has_crc: bool,
    pub has_extension: bool,
    /// Number of optional-field bytes that follow.
    pub additional_header_length: u8,
}

/// The optional header that the first three bytes of `b` encode.
pub open spec fn pes_optional_header_of(b: Seq<u8>) -> PesOptionalHeader {
    PesOptionalHeader {
        marker_bits: b[0] >> 6u8,
        scrambling_control: (b[0] >> 4u8) & 3,
        priority: (b[0] >> 3u8) & 1 == 1,
        data_alignment_indicator: (b[0] >> 2u8) & 1 == 1,
        copyright: (b[0] >> 1u8) & 1 == 1,
        original: b[0] & 1 == 1,
        has_pts: (b[1] >> 7u8) & 1 == 1,
        has_dts: (b[1] >> 6u8) & 1 == 1,
        escr: (b[1] >> 5u8) & 1 == 1,
        es_rate: (b[1] >> 4u8) & 1 == 1,
        dsm_trick_mode: (b[1] >> 3u8) & 1 == 1,
        has_additional_copy_info: (b[1] >> 2u8) & 1 == 1,
        has_crc: (b[1] >> 1u8) & 1 == 1,
        has_extension: b[1] & 1 == 1,
        additional_header_length: b[2],
    }
}

impl PesOptionalHeader {
    /// Decodes the first three bytes of `b`.
    pub fn from_bytes(b: &[u8]) -> (r: PesOptionalHeader)
        requires
            b@.len() >= 3,
        ensures
            r == pes_optional_header_of(b@),
    {
        PesOptionalHeader {
            marker_bits: b[0] >> 6u8,
            scrambling_control: (b[0] >> 4u8) & 3,
            priority: (b[0] >> 3u8) & 1 == 1,
            data_alignment_indicator: (b[0] >> 2u8) & 1 == 1,
            copyright: (b[0] >> 1u8) & 1 == 1,
            original: b[0] & 1 == 1,
            has_pts: (b[1] >> 7u8) & 1 == 1,
            has_dts: (b[1] >> 6u8) & 1 == 1,
            escr: (b[1] >> 5u8) & 1 == 1,
            es_rate: (b[1] >> 4u8) & 1 == 1,
            dsm_trick_mode: (b[1] >> 3u8) & 1 == 1,
            has_additional_copy_info: (b[1] >> 2u8) & 1 == 1,
            has_crc: (b[1] >> 1u8) & 1 == 1,
            has_extension: b[1] & 1 == 1,
            additional_header_length: b[2],
        }
    }
}

/// The 33-bit time stamp packed into the first five bytes of `b`, marker bits dropped.
pub open spec fn timestamp_of(b: Seq<u8>) -> u64 {
    (((b[0] & 0x0e) as u64) << 29u64) | ((b[1] as u64) << 22u64) | (((b[2] & 0xfe) as u64)
        << 14u64) | ((b[3] as u64) << 7u64) | (((b[4] & 0xfe) as u64) >> 1u64)
}

/// Decodes a PTS or DTS from five bytes.
pub fn parse_timestamp(b: &[u8]) -> (r: u64)
    requires
        b@.len() >= 5,
    ensures
        r == timestamp_of(b@),
{
    (((b[0] & 0x0e) as u64) << 29u64) | ((b[1] as u64) << 22u64) | (((b[2] & 0xfe) as u64)
        << 14u64) | ((b[3] as u64) << 7u64) | (((b[4] & 0xfe) as u64) >> 1u64)
}

/// The payload of a PES unit, chosen by its PID when the unit starts.
#[derive(Debug)]
pub enum PesUnitData {
    /// Plain bytes.
    Raw(Vec<u8>),
    /// A Blu-Ray graphics segment.
    Pg(PgSegmentData),
}

/// The bytes a PES payload has received, while it is still being reassembled.
pub open spec fn pes_bytes(d: PesUnitData) -> Seq<u8> {
    match d {
        PesUnitData::Raw(v) => v@,
        PesUnitData::Pg(PgSegmentData::Raw(v)) => v@,
        _ => Seq::empty(),
    }
}

/// Whether a PES payload still takes bytes.
pub open spec fn pes_accumulating(d: PesUnitData) -> bool {
    match d {
        PesUnitData::Raw(_) => true,
        PesUnitData::Pg(PgSegmentData::Raw(_)) => true,
        _ => false,
    }
}

impl PesUnitData {
    /// Appends bytes to a payload that is still being reassembled.
    pub fn extend_from_slice(&mut self, s: &[u8])
        requires
            pes_accumulating(*old(self)),
        ensures
            pes_accumulating(*final(self)),
            pes_bytes(*final(self)) == pes_bytes(*old(self)) + s@,
            (*final(self) is Raw) == (*old(self) is Raw),
    {
        match self {
            PesUnitData::Raw(v) => {
                v.extend_from_slice(s);
            },
            PesUnitData::Pg(PgSegmentData::Raw(v)) => {
                v.extend_from_slice(s);
            },
            PesUnitData::Pg(_) => {},
        }
    }
}

/// A Packetized Elementary Stream unit.
#[derive(Debug)]
pub struct Pes {
    pub header: PesHeader,
    /// Present when `packet_length >= 3` and the stream is not padding (0xBF).
    pub optional_header: Option<PesOptionalHeader>,
    /// Presentation time stamp.
    pub pts: Option<u64>,
    /// Decoding time stamp.
    pub dts: Option<u64>,
    /// The payload, complete once the unit is finished.
    pub data: PesUnitData,
}

/// Whether a PES header is followed by the optional header.
pub open spec fn has_optional_header(h: PesHeader) -> bool {
    h.packet_length >= 3 && h.stream_id != 0xbf
}

/// PES PIDs of Blu-Ray graphics: presentation graphics, interactive graphics and text
/// subtitles.
pub open spec fn is_graphics_pid(pid: u16) -> bool {
    (0x1200 <= pid <= 0x121f) || (0x1400 <= pid <= 0x141f) || pid == 0x1800
}

/// The decoder that a PID's PES units are handed to.
#[derive(Debug, Clone, Copy, PartialEq, Eq, Structural)]
pub enum PesUnitKind {
    /// The payload is kept as plain bytes.
    Raw,
    /// The payload is a Blu-Ray graphics segment, decoded when the unit completes.
    PgSegments,
}

/// Reads the headers of a PES unit whose `packet_length` is not 0. Returns the unit with an
/// empty payload and the number of payload bytes it declares. The payload goes to the decoder
/// `kind` names.
pub fn start_pes(reader: &mut SliceReader, kind: PesUnitKind) -> (r: Result<
    (Pes, usize),
    Error,
>)
    ensures
        no_lost_sync(r),
        match r {
            Ok((pes, unit_length)) => {
                let s = old(reader).rest();
                let h = pes_header_of(s);
                let opt_len: int = if has_optional_header(h) {
                    3 + s[8]
                } else {
                    0
                };
                &&& s.len() >= 6 + opt_len
                &&& pes.header == h
                &&& has_optional_header(h) == pes.optional_header is Some
                &&& has_optional_header(h) ==> pes.optional_header == Some(
                    pes_optional_header_of(s.subrange(6, 9)),
                )
                &&& unit_length == h.packet_length - opt_len
                &&& pes_accumulating(pes.data) && pes_bytes(pes.data) == Seq::<u8>::empty()
                &&& (pes.data is Pg) == (kind == PesUnitKind::PgSegments)
                &&& SliceReader::advanced(*old(reader), *final(reader), 6 + opt_len)
                &&& match pes.pts {
                    Some(t) => pes.optional_header->Some_0.has_pts && t == timestamp_of(
                        s.subrange(9, 14),
                    ),
                    None => !(has_optional_header(h) && pes.optional_header->Some_0.has_pts),
                }
                &&& match pes.dts {
                    Some(t) => pes.optional_header->Some_0.has_dts && t == timestamp_of(
                        s.subrange(if pes.pts is Some { 14 } else { 9 }, if pes.pts is Some {
                            19
                        } else {
                            14
                        }),
                    ),
                    None => !(has_optional_header(h) && pes.optional_header->Some_0.has_dts),
                }
            },
            Err(_) => true,
        },
        ({
            let s = old(reader).rest();
            let h = pes_header_of(s);
            let o = pes_optional_header_of(s.subrange(6, 9));
            let n_ts: int = (if o.has_pts { 5int } else { 0 }) + (if o.has_dts { 5int } else { 0 });
            let fits_opt = s.len() >= 9 && s.len() >= 9 + s[8];
            &&& r is Ok <==> s.len() >= 6 && (has_optional_header(h) ==> fits_opt && s[8] >= n_ts
                && h.packet_length >= 3 + s[8])
            &&& (r is Err && r->Err_0.details == ErrorDetails::BadPesHeader) <==> (s.len() >= 6
                && has_optional_header(h) && fits_opt && (s[8] < n_ts || h.packet_length < 3 + s[8]))
            &&& r is Err ==> r->Err_0.details == ErrorDetails::BadPesHeader
                || r->Err_0.details is PacketOverrun
        }),
{
    let ghost s = reader.rest();
    let header_bytes = reader.read(6)?;
    let header = PesHeader::from_bytes(header_bytes);
    assert(header_bytes@ =~= s.subrange(0, 6));
    assert(header_bytes@.subrange(4, 6) =~= s.subrange(4, 6));
    let pes_length = header.packet_length as usize;
    let mut optional_length: usize = 0;
    let mut pts: Option<u64> = None;
    let mut dts: Option<u64> = None;
    let optional_header = if pes_length >= 3 && header.stream_id != 0xbf {
        let opt_bytes = reader.read(3)?;
        let pes_optional = PesOptionalHeader::from_bytes(opt_bytes);
        assert(opt_bytes@ =~= s.subrange(6, 9));
        let additional_length = pes_optional.additional_header_length as usize;
        optional_length = 3 + additional_length;
        let mut o_reader = reader.new_sub_reader(additional_length)?;
        assert(o_reader.rest() =~= s.subrange(9, 9 + additional_length));
        if pes_optional.has_pts {
            if o_reader.remaining_len() < 5 {
                return Err(o_reader.make_error(ErrorDetails::BadPesHeader));
            }
            let b = o_reader.read(5)?;
            assert(b@ =~= s.subrange(9, 14));
            pts = Some(parse_timestamp(b));
        }
        if pes_optional.has_dts {
            if o_reader.remaining_len() < 5 {
                return Err(o_reader.make_error(ErrorDetails::BadPesHeader));
            }
            let ghost at: int = if pts.is_some() { 14 } else { 9 };
            let b = o_reader.read(5)?;
            assert(b@ =~= s.subrange(at, at + 5));
            dts = Some(parse_timestamp(b));
        }
        Some(pes_optional)
    } else {
        None
    };
    assert(reader.rest() =~= s.subrange(6 + optional_length, s.len() as int));
    assert(optional_length == (if has_optional_header(header) { 3 + s[8] } else { 0int }));
    if optional_length > pes_length {
        return Err(reader.make_error(ErrorDetails::BadPesHeader));
    }
    let unit_length = pes_length - optional_length;
    let data = if kind == PesUnitKind::PgSegments {
        PesUnitData::Pg(PgSegmentData::Raw(Vec::new()))
    } else {
        PesUnitData::Raw(Vec::new())
    };
    Ok((Pes { header, optional_header, pts, dts, data }, unit_length))
}

} // verus!
