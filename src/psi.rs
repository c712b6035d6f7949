use crate::crc32::{crc32_mpeg2, crc32_mpeg2_of};
use crate::error::{no_lost_sync, Error, ErrorDetails};
use crate::slice_reader::{be16, be32, SliceReader};
use smallvec::SmallVec;
use std::collections::HashSet;
use vstd::prelude::*;

verus! {

broadcast use vstd::std_specs::hash::group_hash_axioms;

/// Bytes of a descriptor, stored inline when short.
#[verifier::external_body]
#[derive(Debug)]
pub struct DescriptorBytes {
    inner: SmallVec<[u8; 8]>,
}

/// The bytes that a descriptor's inline vector holds.
pub uninterp spec fn descriptor_bytes(v: DescriptorBytes) -> Seq<u8>;

impl DescriptorBytes {
    /// Relies on smallvec's `SmallVec::new`: the new vector is empty.
    #[verifier::external_body]
    fn new() -> (r: DescriptorBytes)
        ensures
            descriptor_bytes(r) == Seq::<u8>::empty(),
    {
        DescriptorBytes { inner: SmallVec::new() }
    }

    /// Relies on smallvec's `SmallVec::extend_from_slice`: the slice is appended in order. It
    /// panics only when the length overflows, which the bound rules out.
    #[verifier::external_body]
    fn extend_from_slice(&mut self, s: &[u8])
        requires
            descriptor_bytes(*old(self)).len() + s@.len() <= isize::MAX,
        ensures
            descriptor_bytes(*final(self)) == descriptor_bytes(*old(self)) + s@,
    {
        self.inner.extend_from_slice(s)
    }

    /// Relies on smallvec's `SmallVec::as_slice`: the bytes held, in order.
    #[verifier::external_body]
    pub fn as_slice(&self) -> (r: &[u8])
        ensures
            r@ == descriptor_bytes(*self),
    {
        self.inner.as_slice()
    }
}

/// Header of a PSI section.
#[derive(Debug, Clone, Copy, PartialEq, Eq, Structural)]
pub struct PsiHeader {
    pub table_id: u8,
    pub section_syntax_indicator: bool,
    pub private_bit: bool,
    pub reserved_bits: u8,
    /// Number of bytes that follow the header, CRC included.
    pub section_length: u16,
}

/// The header that the first three bytes of `b` encode.
pub open spec fn psi_header_of(b: Seq<u8>) -> PsiHeader {
    PsiHeader {
        table_id: b[0],
        section_syntax_indicator: (b[1] >> 7u8) & 1 == 1,
        private_bit: (b[1] >> 6u8) & 1 == 1,
        reserved_bits: (b[1] >> 4u8) & 3,
        section_length: (((b[1] & 3) as u16) << 8u16) | (b[2] as u16),
    }
}

impl PsiHeader {
    /// Decodes the first three bytes of `b`.
    pub fn from_bytes(b: &[u8]) -> (r: PsiHeader)
        requires
            b@.len() >= 3,
        ensures
            r == psi_header_of(b@),
    {
        PsiHeader {
            table_id: b[0],
            section_syntax_indicator: (b[1] >> 7u8) & 1 == 1,
            private_bit: (b[1] >> 6u8) & 1 == 1,
            reserved_bits: (b[1] >> 4u8) & 3,
            section_length: (((b[1] & 3) as u16) << 8u16) | (b[2] as u16),
        }
    }
}

/// The long-form section fields that follow the header when the section is not empty.
#[derive(Debug, Clone, Copy, PartialEq, Eq, Structural)]
pub struct PsiTableSyntax {
    pub table_id_extension: u16,
    pub reserved_bits: u8,
    pub version: u8,
    pub current_next_indicator: bool,
    pub section_num: u8,
    pub last_section_num: u8,
}

/// The table syntax that the first five bytes of `b` encode.
pub open spec fn psi_table_syntax_of(b: Seq<u8>) -> PsiTableSyntax {
    PsiTableSyntax {
        table_id_extension: be16(b) as u16,
        reserved_bits: b[2] >> 6u8,
        version: (b[2] >> 1u8) & 0x1f,
        current_next_indicator: b[2] & 1 == 1,
        section_num: b[3],
        last_section_num: b[4],
    }
}

impl PsiTableSyntax {
    /// Decodes the first five bytes of `b`.
    pub fn from_bytes(b: &[u8]) -> (r: PsiTableSyntax)
        requires
            b@.len() >= 5,
        ensures
            r == psi_table_syntax_of(b@),
    {
        PsiTableSyntax {
            table_id_extension: b[0] as u16 * 0x100 + b[1] as u16,
            reserved_bits: b[2] >> 6u8,
            version: (b[2] >> 1u8) & 0x1f,
            current_next_indicator: b[2] & 1 == 1,
            section_num: b[3],
            last_section_num: b[4],
        }
    }
}

/// One program of a program association table.
#[derive(Debug, Clone, Copy, PartialEq, Eq, Structural)]
pub struct PatEntry {
    pub program_num: u16,
    pub reserved: u8,
    /// PID of the program's map table.
    pub program_map_pid: u16,
}

/// The entry that the first four bytes of `b` encode.
pub open spec fn pat_entry_of(b: Seq<u8>) -> PatEntry {
    PatEntry {
        program_num: be16(b) as u16,
        reserved: b[2] >> 5u8,
        program_map_pid: (((b[2] & 0x1f) as u16) << 8u16) | (b[3] as u16),
    }
}

/// The entries of a PAT body: one for each whole group of four bytes.
pub open spec fn pat_entries_of(body: Seq<u8>) -> Seq<PatEntry> {
    Seq::new(body.len() / 4, |i: int| pat_entry_of(body.subrange(4 * i, 4 * i + 4)))
}

/// The PIDs that a PAT names as program map tables: those of every entry whose program number
/// is not 0 (program 0 points at the network information table).
pub open spec fn pmt_pids_of(entries: Seq<PatEntry>) -> Set<u16> {
    Set::new(
        |p: u16|
            exists|i: int|
                0 <= i < entries.len() && entries[i].program_num != 0
                    && entries[i].program_map_pid == p,
    )
}

impl PatEntry {
    /// Decodes the first four bytes of `b`.
    pub fn from_bytes(b: &[u8]) -> (r: PatEntry)
        requires
            b@.len() >= 4,
        ensures
            r == pat_entry_of(b@),
    {
        PatEntry {
            program_num: b[0] as u16 * 0x100 + b[1] as u16,
            reserved: b[2] >> 5u8,
            program_map_pid: (((b[2] & 0x1f) as u16) << 8u16) | (b[3] as u16),
        }
    }
}

/// A tagged blob of descriptor data.
#[derive(Debug)]
pub struct Descriptor {
    pub tag: u8,
    pub data: DescriptorBytes,
}

/// A descriptor as its tag and bytes.
pub open spec fn descriptor_view(d: Descriptor) -> (u8, Seq<u8>) {
    (d.tag, descriptor_bytes(d.data))
}

/// A list of descriptors as tags and bytes.
pub open spec fn descriptors_view(v: Seq<Descriptor>) -> Seq<(u8, Seq<u8>)> {
    v.map_values(|d: Descriptor| descriptor_view(d))
}

/// The descriptors that fill `s` exactly: each a tag byte, a length byte and that many bytes;
/// `None` where the last one runs past the end.
pub open spec fn descriptors_of(s: Seq<u8>) -> Option<Seq<(u8, Seq<u8>)>>
    decreases s.len(),
{
    if s.len() == 0 {
        Some(Seq::empty())
    } else if s.len() < 2 || s.len() < 2 + s[1] {
        None
    } else {
        match descriptors_of(s.subrange(2 + s[1], s.len() as int)) {
            Some(rest) => Some(seq![(s[0], s.subrange(2, 2 + s[1]))] + rest),
            None => None,
        }
    }
}

/// `Some(front + x)` for `Some(x)`.
pub open spec fn prepend<T>(front: Seq<T>, o: Option<Seq<T>>) -> Option<Seq<T>> {
    match o {
        Some(x) => Some(front + x),
        None => None,
    }
}

impl Descriptor {
    /// Reads one descriptor.
    pub fn new_from_reader(reader: &mut SliceReader) -> (r: Result<Descriptor, Error>)
        ensures
            no_lost_sync(r),
            match r {
                Ok(d) => {
                    let s = old(reader).rest();
                    &&& s.len() >= 2 && s.len() >= 2 + s[1]
                    &&& descriptor_view(d) == (s[0], s.subrange(2, 2 + s[1]))
                    &&& SliceReader::advanced(*old(reader), *final(reader), 2 + s[1])
                },
                Err(_) => {
                    let s = old(reader).rest();
                    s.len() < 2 || s.len() < 2 + s[1]
                },
            },
    {
        let ghost s = reader.rest();
        let tag = reader.read_u8()?;
        let len = reader.read_u8()?;
        let bytes = reader.read(len as usize)?;
        assert(bytes@ =~= s.subrange(2, 2 + s[1]));
        assert(reader.rest() =~= s.subrange(2 + s[1], s.len() as int));
        let mut data = DescriptorBytes::new();
        data.extend_from_slice(bytes);
        proof {
            assert(descriptor_bytes(data) == Seq::<u8>::empty() + bytes@);
            assert(Seq::<u8>::empty() + bytes@ == bytes@);
        }
        Ok(Descriptor { tag, data })
    }
}

/// Reads descriptors until `reader` is empty.
fn read_descriptors(reader: &mut SliceReader) -> (r: Result<Vec<Descriptor>, Error>)
    ensures
        no_lost_sync(r),
        match r {
            Ok(v) => descriptors_of(old(reader).rest()) == Some(descriptors_view(v@)),
            Err(_) => descriptors_of(old(reader).rest()) is None,
        },
{
    let mut out: Vec<Descriptor> = Vec::new();
    let ghost full = reader.rest();
    while reader.remaining_len() > 0
        invariant
            full == old(reader).rest(),
            descriptors_of(full) == prepend(descriptors_view(out@), descriptors_of(reader.rest())),
        decreases reader.rest().len(),
    {
        let ghost before = reader.rest();
        let d = match Descriptor::new_from_reader(reader) {
            Ok(d) => d,
            Err(e) => {
                assert(descriptors_of(before) is None);
                return Err(e);
            },
        };
        out.push(d);
        proof {
            let tail = descriptors_of(reader.rest());
            assert(descriptors_view(out@) == descriptors_view(out@.drop_last()) + seq![
                descriptor_view(d),
            ]);
            match tail {
                Some(t) => {
                    assert(descriptors_view(out@.drop_last()) + (seq![descriptor_view(d)] + t)
                        == descriptors_view(out@) + t);
                },
                None => {},
            }
        }
    }
    proof {
        assert(descriptors_view(out@) + Seq::<(u8, Seq<u8>)>::empty() == descriptors_view(out@));
    }
    Ok(out)
}

/// Header of a program map table.
#[derive(Debug, Clone, Copy, PartialEq, Eq, Structural)]
pub struct PmtHeader {
    pub reserved: u8,
    pub pcr_pid: u16,
    pub reserved2: u8,
    pub program_info_length: u16,
}

/// The PMT header that the first four bytes of `b` encode.
pub open spec fn pmt_header_of(b: Seq<u8>) -> PmtHeader {
    PmtHeader {
        reserved: b[0] >> 5u8,
        pcr_pid: (((b[0] & 0x1f) as u16) << 8u16) | (b[1] as u16),
        reserved2: b[2] >> 4u8,
        program_info_length: (((b[2] & 3) as u16) << 8u16) | (b[3] as u16),
    }
}

impl PmtHeader {
    /// Decodes the first four bytes of `b`.
    pub fn from_bytes(b: &[u8]) -> (r: PmtHeader)
        requires
            b@.len() >= 4,
        ensures
            r == pmt_header_of(b@),
    {
        PmtHeader {
            reserved: b[0] >> 5u8,
            pcr_pid: (((b[0] & 0x1f) as u16) << 8u16) | (b[1] as u16),
            reserved2: b[2] >> 4u8,
            program_info_length: (((b[2] & 3) as u16) << 8u16) | (b[3] as u16),
        }
    }
}

/// Header of one elementary stream entry of a PMT.
#[derive(Debug, Clone, Copy, PartialEq, Eq, Structural)]
pub struct ElementaryStreamInfoHeader {
    pub stream_type: u8,
    pub reserved: u8,
    pub elementary_pid: u16,
    pub reserved2: u8,
    pub es_info_length: u16,
}

/// The stream entry header that the first five bytes of `b` encode.
pub open spec fn es_header_of(b: Seq<u8>) -> ElementaryStreamInfoHeader {
    ElementaryStreamInfoHeader {
        stream_type: b[0],
        reserved: b[1] >> 5u8,
        elementary_pid: (((b[1] & 0x1f) as u16) << 8u16) | (b[2] as u16),
        reserved2: b[3] >> 4u8,
        es_info_length: (((b[3] & 3) as u16) << 8u16) | (b[4] as u16),
    }
}

impl ElementaryStreamInfoHeader {
    /// Decodes the first five bytes of `b`.
    pub fn from_bytes(b: &[u8]) -> (r: ElementaryStreamInfoHeader)
        requires
            b@.len() >= 5,
        ensures
            r == es_header_of(b@),
    {
        ElementaryStreamInfoHeader {
            stream_type: b[0],
            reserved: b[1] >> 5u8,
            elementary_pid: (((b[1] & 0x1f) as u16) << 8u16) | (b[2] as u16),
            reserved2: b[3] >> 4u8,
            es_info_length: (((b[3] & 3) as u16) << 8u16) | (b[4] as u16),
        }
    }
}

/// One elementary stream of a program.
#[derive(Debug)]
pub struct ElementaryStreamInfo {
    pub header: ElementaryStreamInfoHeader,
    pub es_descriptors: Vec<Descriptor>,
}

/// A stream entry as its header and descriptors.
pub open spec fn es_info_view(e: ElementaryStreamInfo) -> (
    ElementaryStreamInfoHeader,
    Seq<(u8, Seq<u8>)>,
) {
    (e.header, descriptors_view(e.es_descriptors@))
}

/// The stream entries that fill `s` exactly; `None` where one runs past the end.
pub open spec fn es_infos_of(s: Seq<u8>) -> Option<
    Seq<(ElementaryStreamInfoHeader, Seq<(u8, Seq<u8>)>)>,
>
    decreases s.len(),
{
    if s.len() == 0 {
        Some(Seq::empty())
    } else if s.len() < 5 || s.len() < 5 + es_header_of(s).es_info_length {
        None
    } else {
        let end = 5 + es_header_of(s).es_info_length;
        match descriptors_of(s.subrange(5, end)) {
            Some(d) => prepend(seq![(es_header_of(s), d)], es_infos_of(s.subrange(end, s.len() as int))),
            None => None,
        }
    }
}

/// A program map table.
#[derive(Debug)]
pub struct Pmt {
    pub header: PmtHeader,
    pub program_descriptors: Vec<Descriptor>,
    pub es_infos: Vec<ElementaryStreamInfo>,
}

/// The PMT that a table body (CRC removed) encodes, where it is well formed.
pub open spec fn pmt_of(s: Seq<u8>) -> Option<
    (
        PmtHeader,
        Seq<(u8, Seq<u8>)>,
        Seq<(ElementaryStreamInfoHeader, Seq<(u8, Seq<u8>)>)>,
    ),
> {
    if s.len() < 4 || s.len() < 4 + pmt_header_of(s).program_info_length {
        None
    } else {
        let end = 4 + pmt_header_of(s).program_info_length;
        match (descriptors_of(s.subrange(4, end)), es_infos_of(s.subrange(end, s.len() as int))) {
            (Some(d), Some(e)) => Some((pmt_header_of(s), d, e)),
            _ => None,
        }
    }
}

/// A PMT as its header, program descriptors and stream entries.
pub open spec fn pmt_view(p: Pmt) -> (
    PmtHeader,
    Seq<(u8, Seq<u8>)>,
    Seq<(ElementaryStreamInfoHeader, Seq<(u8, Seq<u8>)>)>,
) {
    (
        p.header,
        descriptors_view(p.program_descriptors@),
        p.es_infos@.map_values(|e: ElementaryStreamInfo| es_info_view(e)),
    )
}

/// Reads stream entries until `reader` is empty.
fn read_es_infos(reader: &mut SliceReader) -> (r: Result<Vec<ElementaryStreamInfo>, Error>)
    ensures
        no_lost_sync(r),
        match r {
            Ok(v) => es_infos_of(old(reader).rest()) == Some(
                v@.map_values(|e: ElementaryStreamInfo| es_info_view(e)),
            ),
            Err(_) => es_infos_of(old(reader).rest()) is None,
        },
{
    let mut out: Vec<ElementaryStreamInfo> = Vec::new();
    let ghost full = reader.rest();
    while reader.remaining_len() > 0
        invariant
            full == old(reader).rest(),
            es_infos_of(full) == prepend(
                out@.map_values(|e: ElementaryStreamInfo| es_info_view(e)),
                es_infos_of(reader.rest()),
            ),
        decreases reader.rest().len(),
    {
        let ghost s = reader.rest();
        if reader.remaining_len() < 5 {
            assert(es_infos_of(s) is None);
            return Err(reader.make_error(ErrorDetails::PacketOverrun(5)));
        }
        let header_bytes = reader.read(5)?;
        let header = ElementaryStreamInfoHeader::from_bytes(header_bytes);
        assert(header_bytes@ =~= s.subrange(0, 5));
        let mut es_reader = match reader.new_sub_reader(header.es_info_length as usize) {
            Ok(r) => r,
            Err(e) => {
                assert(es_infos_of(s) is None);
                return Err(e);
            },
        };
        let ghost end = 5 + header.es_info_length;
        assert(es_reader.rest() =~= s.subrange(5, end));
        assert(reader.rest() =~= s.subrange(end, s.len() as int));
        let es_descriptors = match read_descriptors(&mut es_reader) {
            Ok(d) => d,
            Err(e) => {
                assert(es_infos_of(s) is None);
                return Err(e);
            },
        };
        let info = ElementaryStreamInfo { header, es_descriptors };
        let ghost prev = out@.map_values(|e: ElementaryStreamInfo| es_info_view(e));
        out.push(info);
        proof {
            assert(out@.map_values(|e: ElementaryStreamInfo| es_info_view(e)) =~= prev + seq![
                es_info_view(info),
            ]);
            match es_infos_of(reader.rest()) {
                Some(t) => {
                    assert(prev + (seq![es_info_view(info)] + t) =~= (prev + seq![
                        es_info_view(info),
                    ]) + t);
                },
                None => {},
            }
        }
    }
    proof {
        let v = out@.map_values(|e: ElementaryStreamInfo| es_info_view(e));
        assert(v + Seq::empty() =~= v);
    }
    Ok(out)
}

/// Parses a PMT from a table body with its CRC removed.
fn parse_pmt(data: &[u8]) -> (r: Result<Pmt, Error>)
    ensures
        no_lost_sync(r),
        match r {
            Ok(p) => pmt_of(data@) == Some(pmt_view(p)),
            Err(_) => pmt_of(data@) is None,
        },
{
    let mut reader = SliceReader::new(data);
    if reader.remaining_len() < 4 {
        return Err(reader.make_error(ErrorDetails::PacketOverrun(4)));
    }
    let header_bytes = reader.read(4)?;
    let header = PmtHeader::from_bytes(header_bytes);
    assert(header_bytes@ =~= data@.subrange(0, 4));
    let mut info_reader = reader.new_sub_reader(header.program_info_length as usize)?;
    let ghost end = 4 + header.program_info_length;
    assert(info_reader.rest() =~= data@.subrange(4, end));
    assert(reader.rest() =~= data@.subrange(end, data@.len() as int));
    let program_descriptors = read_descriptors(&mut info_reader)?;
    let es_infos = read_es_infos(&mut reader)?;
    Ok(Pmt { header, program_descriptors, es_infos })
}

/// What a finished section holds.
#[derive(Debug)]
pub enum PsiData {
    /// A table this crate does not decode, as its bytes.
    Raw(Vec<u8>),
    /// A program association table.
    Pat(Vec<PatEntry>),
    /// A program map table.
    Pmt(Pmt),
}

/// A finished PSI section.
#[derive(Debug)]
pub struct Psi {
    pub header: PsiHeader,
    pub table_syntax: Option<PsiTableSyntax>,
    pub data: PsiData,
}

/// A PSI section being reassembled.
#[derive(Debug)]
pub struct PsiBuilder {
    /// Offset within its first packet of the section header.
    pub location: usize,
    pub header: PsiHeader,
    pub table_syntax: Option<PsiTableSyntax>,
    /// Header and table syntax bytes, which the CRC covers.
    pub prefix: Vec<u8>,
    /// Table body received so far, CRC trailer included.
    pub data: Vec<u8>,
}

/// The body of a section without its 4-byte CRC trailer.
pub open spec fn body_of(b: PsiBuilder) -> Seq<u8> {
    section_body(b.table_syntax, b.data@)
}

/// The body of a section's received bytes: without the 4-byte CRC trailer when it has
/// table syntax.
pub open spec fn section_body(syntax: Option<PsiTableSyntax>, data: Seq<u8>) -> Seq<u8> {
    if syntax is Some {
        data.subrange(0, data.len() - 4)
    } else {
        data
    }
}

/// Whether the CRC trailer of a section matches the CRC-32/MPEG-2 of everything before it.
pub open spec fn section_crc_ok(syntax: Option<PsiTableSyntax>, prefix: Seq<u8>, data: Seq<u8>) -> bool {
    syntax is Some ==> crc32_mpeg2_of(prefix + section_body(syntax, data)) == be32(
        data.subrange(data.len() - 4, data.len() as int),
    )
}

/// Whether the CRC trailer of a section matches the CRC-32/MPEG-2 of everything before it.
pub open spec fn crc_matches(b: PsiBuilder) -> bool {
    section_crc_ok(b.table_syntax, b.prefix@, b.data@)
}

/// How a finished section is decoded.
pub enum PsiKind {
    Raw,
    Pat,
    Pmt,
}

/// Which table a finished section on `pid` holds, given the known PMT PIDs.
pub open spec fn psi_kind(b: PsiBuilder, pid: u16, pmt_pids: Set<u16>) -> PsiKind {
    section_kind(b.header, pid, pmt_pids)
}

/// Which table a finished section with `header` on `pid` holds, given the known PMT PIDs.
pub open spec fn section_kind(header: PsiHeader, pid: u16, pmt_pids: Set<u16>) -> PsiKind {
    let b = header;
    if b.private_bit {
        PsiKind::Raw
    } else if pid == 0 && b.table_id == 0 {
        PsiKind::Pat
    } else if pmt_pids.contains(pid) {
        PsiKind::Pmt
    } else {
        PsiKind::Raw
    }
}

/// Whether a finished section's data is what its body encodes.
pub open spec fn psi_data_matches(d: PsiData, kind: PsiKind, body: Seq<u8>) -> bool {
    match kind {
        PsiKind::Raw => d is Raw && d->Raw_0@ == body,
        PsiKind::Pat => d is Pat && d->Pat_0@ == pat_entries_of(body),
        PsiKind::Pmt => d is Pmt && pmt_of(body) == Some(pmt_view(d->Pmt_0)),
    }
}

/// What finishing a section promises: the section with `location`, `header`, table syntax,
/// CRC-covered `prefix` and received `data`, on `pid`, with the PMT PID set going from `pmt0`
/// to `pmt1`. A CRC mismatch is an error at the section's offset and changes nothing; a PAT
/// replaces the PMT PID set with the PIDs it names; the table is decoded by its kind.
pub open spec fn section_finish_post(
    location: usize,
    header: PsiHeader,
    syntax: Option<PsiTableSyntax>,
    prefix: Seq<u8>,
    data: Seq<u8>,
    pid: u16,
    pmt0: Set<u16>,
    pmt1: Set<u16>,
    r: Result<Psi, Error>,
) -> bool {
    let crc = section_crc_ok(syntax, prefix, data);
    let kind = section_kind(header, pid, pmt0);
    let body = section_body(syntax, data);
    &&& !crc ==> r == Err::<Psi, Error>(Error { location, details: ErrorDetails::PsiCrcMismatch })
    &&& !crc || kind !is Pat ==> pmt1 == pmt0
    &&& crc && kind is Pat ==> pmt1 == pmt_pids_of(pat_entries_of(body))
    &&& crc && kind is Pmt ==> (r is Ok <==> pmt_of(body) is Some)
    &&& crc && kind !is Pmt ==> r is Ok
    &&& r is Ok ==> {
        let p = r->Ok_0;
        &&& p.header == header
        &&& p.table_syntax == syntax
        &&& psi_data_matches(p.data, kind, body)
    }
}

impl PsiBuilder {
    /// Well-formed: a section with table syntax holds at least its CRC trailer.
    pub open spec fn wf(&self) -> bool {
        self.table_syntax is Some ==> self.data@.len() >= 4
    }

    /// Finishes a section whose bytes have all arrived: checks the CRC, then decodes the table.
    /// A PAT replaces the set of known PMT PIDs with the PIDs it names.
    pub fn finish(self, pid: u16, known_pmt_pids: &mut HashSet<u16>) -> (r: Result<Psi, Error>)
        requires
            self.wf(),
        ensures
            no_lost_sync(r),
            !crc_matches(self) ==> r == Err::<Psi, Error>(
                Error { location: self.location, details: ErrorDetails::PsiCrcMismatch },
            ),
            !crc_matches(self) || psi_kind(self, pid, old(known_pmt_pids)@) !is Pat
                ==> final(known_pmt_pids)@ == old(known_pmt_pids)@,
            crc_matches(self) && psi_kind(self, pid, old(known_pmt_pids)@) is Pat
                ==> final(known_pmt_pids)@ == pmt_pids_of(pat_entries_of(body_of(self))),
            crc_matches(self) && psi_kind(self, pid, old(known_pmt_pids)@) is Pmt ==> (r is Ok
                <==> pmt_of(body_of(self)) is Some),
            crc_matches(self) && psi_kind(self, pid, old(known_pmt_pids)@) !is Pmt ==> r is Ok,
            r is Ok ==> {
                let p = r->Ok_0;
                &&& crc_matches(self)
                &&& p.header == self.header
                &&& p.table_syntax == self.table_syntax
                &&& psi_data_matches(p.data, psi_kind(self, pid, old(known_pmt_pids)@), body_of(self))
            },
            section_finish_post(
                self.location,
                self.header,
                self.table_syntax,
                self.prefix@,
                self.data@,
                pid,
                old(known_pmt_pids)@,
                final(known_pmt_pids)@,
                r,
            ),
    {
        let mut data = self.data;
        if self.table_syntax.is_some() {
            let len_minus_crc = data.len() - 4;
            let mut covered = self.prefix.clone();
            let mut i: usize = 0;
            while i < len_minus_crc
                invariant
                    0 <= i <= len_minus_crc,
                    len_minus_crc == data@.len() - 4,
                    covered@ == self.prefix@ + data@.subrange(0, i as int),
                decreases len_minus_crc - i,
            {
                covered.push(data[i]);
                i = i + 1;
                assert(covered@ =~= self.prefix@ + data@.subrange(0, i as int));
            }
            let actual = crc32_mpeg2(covered.as_slice());
            let expected = data[len_minus_crc] as u32 * 0x1000000 + data[len_minus_crc + 1] as u32
                * 0x10000 + data[len_minus_crc + 2] as u32 * 0x100 + data[len_minus_crc + 3] as u32;
            assert(covered@ == self.prefix@ + body_of(self));
            if expected != actual {
                return Err(Error::new(self.location, ErrorDetails::PsiCrcMismatch));
            }
            data.truncate(len_minus_crc);
        }
        assert(data@ =~= body_of(self));
        let table = if self.header.private_bit {
            PsiData::Raw(data)
        } else if pid == 0 && self.header.table_id == 0 {
            known_pmt_pids.clear();
            let mut entries: Vec<PatEntry> = Vec::new();
            let mut off: usize = 0;
            while data.len() - off >= 4
                invariant
                    off % 4 == 0,
                    off <= data@.len(),
                    data@ == body_of(self),
                    entries@ =~= pat_entries_of(data@).subrange(0, (off / 4) as int),
                    known_pmt_pids@ =~= pmt_pids_of(entries@),
                decreases data@.len() - off,
            {
                let entry = PatEntry::from_bytes(&data.as_slice()[off..off + 4]);
                assert(data@.subrange(off as int, off + 4) =~= data@.subrange(
                    4 * (off / 4),
                    4 * (off / 4) + 4,
                ));
                if entry.program_num != 0 {
                    known_pmt_pids.insert(entry.program_map_pid);
                }
                let ghost before = entries@;
                entries.push(entry);
                off = off + 4;
                proof {
                    assert(entries@ =~= pat_entries_of(data@).subrange(0, (off / 4) as int));
                    assert(entries@ == before.push(entry));
                    assert forall|p: u16|
                        known_pmt_pids@.contains(p) == #[trigger] pmt_pids_of(entries@).contains(p) by {
                        if pmt_pids_of(before).contains(p) {
                            let i = choose|i: int|
                                0 <= i < before.len() && before[i].program_num != 0
                                    && before[i].program_map_pid == p;
                            assert(entries@[i] == before[i]);
                        }
                        if entry.program_num != 0 && entry.program_map_pid == p {
                            assert(entries@[before.len() as int] == entry);
                        }
                        if pmt_pids_of(entries@).contains(p) {
                            let i = choose|i: int|
                                0 <= i < entries@.len() && entries@[i].program_num != 0
                                    && entries@[i].program_map_pid == p;
                            if i < before.len() {
                                assert(before[i] == entries@[i]);
                                assert(pmt_pids_of(before).contains(p));
                            }
                        }
                    }
                }
            }
            assert(entries@ =~= pat_entries_of(data@));
            PsiData::Pat(entries)
        } else if known_pmt_pids.contains(&pid) {
            PsiData::Pmt(parse_pmt(data.as_slice())?)
        } else {
            PsiData::Raw(data)
        };
        Ok(Psi { header: self.header, table_syntax: self.table_syntax, data: table })
    }
}

} // verus!
