use crate::error::{no_lost_sync, BdavErrorDetails, Error, ErrorDetails};
use crate::mobj::{cmd_of_bytes, cmd_opcode_of, MObjCmd};
use crate::slice_reader::{be16_at, be24_at, be33, u16_at, u24_at, SliceReader};
use std::collections::HashMap;
use vstd::prelude::*;

verus! {

broadcast use vstd::std_specs::hash::group_hash_axioms;

/// A buffer that collects the fragments of one object or interactive composition, up to the
/// length its first fragment declared.
#[derive(Debug)]
pub struct FragmentBuffer {
    pub capacity: usize,
    pub data: Vec<u8>,
}

/// `data` followed by as much of `more` as still fits under `cap`.
pub open spec fn fill(data: Seq<u8>, more: Seq<u8>, cap: int) -> Seq<u8> {
    let room = cap - data.len();
    if more.len() <= room {
        data + more
    } else if room <= 0 {
        data
    } else {
        data + more.subrange(0, room)
    }
}

/// The bytes that fragments `frags` leave in a buffer of capacity `cap`, added in order.
pub open spec fn fill_all(data: Seq<u8>, frags: Seq<Seq<u8>>, cap: int) -> Seq<u8>
    decreases frags.len(),
{
    if frags.len() == 0 {
        data
    } else {
        fill_all(fill(data, frags[0], cap), frags.subrange(1, frags.len() as int), cap)
    }
}

/// Total length of some fragments.
pub open spec fn total_len(frags: Seq<Seq<u8>>) -> int
    decreases frags.len(),
{
    if frags.len() == 0 {
        0
    } else {
        frags[0].len() + total_len(frags.subrange(1, frags.len() as int))
    }
}

/// Fragments that fit in the length their first fragment declared are reassembled to their
/// concatenation: an object sent as first, middle and last fragments completes to the same
/// bytes as one sent whole.
pub proof fn lemma_fragments_complete(frags: Seq<Seq<u8>>, cap: int)
    requires
        total_len(frags) <= cap,
    ensures
        fill_all(Seq::empty(), frags, cap) == frags.fold_left(
            Seq::<u8>::empty(),
            |acc: Seq<u8>, f: Seq<u8>| acc + f,
        ),
{
    lemma_fill_all_concat(Seq::empty(), frags, cap);
}

proof fn lemma_fill_all_concat(data: Seq<u8>, frags: Seq<Seq<u8>>, cap: int)
    requires
        data.len() + total_len(frags) <= cap,
    ensures
        fill_all(data, frags, cap) == frags.fold_left(data, |acc: Seq<u8>, f: Seq<u8>| acc + f),
    decreases frags.len(),
{
    let g = |acc: Seq<u8>, f: Seq<u8>| acc + f;
    if frags.len() == 0 {
    } else {
        let rest = frags.subrange(1, frags.len() as int);
        lemma_total_len_nonneg(rest);
        assert(fill(data, frags[0], cap) == data + frags[0]);
        lemma_fill_all_concat(data + frags[0], rest, cap);
        frags.lemma_fold_left_alt(data, g);
        rest.lemma_fold_left_alt(data + frags[0], g);
        assert(frags.fold_left_alt(data, g) == rest.fold_left_alt(g(data, frags[0]), g));
    }
}

proof fn lemma_total_len_nonneg(frags: Seq<Seq<u8>>)
    ensures
        total_len(frags) >= 0,
    decreases frags.len(),
{
    if frags.len() > 0 {
        lemma_total_len_nonneg(frags.subrange(1, frags.len() as int));
    }
}

/// Appends what fits of `more` to a buffer.
fn fill_buffer(buf: &mut FragmentBuffer, more: &[u8])
    requires
        old(buf).data@.len() <= old(buf).capacity,
    ensures
        final(buf).capacity == old(buf).capacity,
        final(buf).data@ == fill(old(buf).data@, more@, old(buf).capacity as int),
        final(buf).data@.len() <= final(buf).capacity,
{
    let room = buf.capacity - buf.data.len();
    if more.len() <= room {
        buf.data.extend_from_slice(more);
    } else {
        let part = &more[0..room];
        assert(part@ =~= more@.subrange(0, room as int));
        buf.data.extend_from_slice(part);
    }
    assert(buf.data@ =~= fill(old(buf).data@, more@, old(buf).capacity as int));
}

/// Fragments of objects and interactive compositions that span several PES units, keyed by
/// object id and version, or by composition number and state.
#[derive(Debug)]
pub struct BdavParserStorage {
    pending_ig_segments: HashMap<u32, FragmentBuffer>,
    pending_obj_segments: HashMap<u32, FragmentBuffer>,
}

/// Which of the two maps of pending fragments.
pub enum FragmentKind {
    Object,
    IgComposition,
}

impl BdavParserStorage {
    /// Storage with nothing pending.
    pub fn new() -> (r: Self)
        ensures
            r.wf(),
            r.pending(FragmentKind::Object) == Map::<u32, FragmentBuffer>::empty(),
            r.pending(FragmentKind::IgComposition) == Map::<u32, FragmentBuffer>::empty(),
    {
        BdavParserStorage { pending_ig_segments: HashMap::new(), pending_obj_segments: HashMap::new() }
    }

    /// The buffers pending in one map.
    pub closed spec fn pending(&self, kind: FragmentKind) -> Map<u32, FragmentBuffer> {
        match kind {
            FragmentKind::Object => self.pending_obj_segments@,
            FragmentKind::IgComposition => self.pending_ig_segments@,
        }
    }

    /// Every buffer holds at most its capacity.
    pub closed spec fn wf(&self) -> bool {
        buffers_ok(self.pending_obj_segments@) && buffers_ok(self.pending_ig_segments@)
    }

    /// Whether a buffer is pending under `key`.
    pub fn contains(&self, kind: FragmentKind, key: u32) -> (r: bool)
        ensures
            r == self.pending(kind).contains_key(key),
    {
        match kind {
            FragmentKind::Object => self.pending_obj_segments.contains_key(&key),
            FragmentKind::IgComposition => self.pending_ig_segments.contains_key(&key),
        }
    }

    /// Starts a buffer of `capacity` bytes under `key` with the first fragment, replacing any
    /// buffer pending there.
    pub fn start_fragments(&mut self, kind: FragmentKind, key: u32, capacity: usize, first: &[u8])
        requires
            old(self).wf(),
        ensures
            final(self).wf(),
            final(self).pending(kind) == old(self).pending(kind).insert(key, final(self).pending(kind)[key]),
            final(self).pending(kind)[key].capacity == capacity,
            final(self).pending(kind)[key].data@ == fill(Seq::empty(), first@, capacity as int),
            final(self).pending(other_kind(kind)) == old(self).pending(other_kind(kind)),
    {
        let mut buf = FragmentBuffer { capacity, data: Vec::new() };
        fill_buffer(&mut buf, first);
        match kind {
            FragmentKind::Object => {
                self.pending_obj_segments.insert(key, buf);
            },
            FragmentKind::IgComposition => {
                self.pending_ig_segments.insert(key, buf);
            },
        }
    }

    /// Adds a middle fragment to the buffer under `key`. Returns false, changing nothing, when
    /// no buffer is pending there.
    pub fn continue_fragments(&mut self, kind: FragmentKind, key: u32, more: &[u8]) -> (r: bool)
        requires
            old(self).wf(),
        ensures
            final(self).wf(),
            r == old(self).pending(kind).contains_key(key),
            !r ==> final(self).pending(kind) == old(self).pending(kind),
            r ==> final(self).pending(kind) == old(self).pending(kind).insert(key, final(self).pending(kind)[key]),
            r ==> final(self).pending(kind)[key].capacity == old(self).pending(kind)[key].capacity,
            r ==> final(self).pending(kind)[key].data@ == fill(
                old(self).pending(kind)[key].data@,
                more@,
                old(self).pending(kind)[key].capacity as int,
            ),
            final(self).pending(other_kind(kind)) == old(self).pending(other_kind(kind)),
    {
        let removed = match kind {
            FragmentKind::Object => self.pending_obj_segments.remove(&key),
            FragmentKind::IgComposition => self.pending_ig_segments.remove(&key),
        };
        match removed {
            None => false,
            Some(buf) => {
                let mut buf = buf;
                fill_buffer(&mut buf, more);
                match kind {
                    FragmentKind::Object => {
                        self.pending_obj_segments.insert(key, buf);
                    },
                    FragmentKind::IgComposition => {
                        self.pending_ig_segments.insert(key, buf);
                    },
                }
                proof {
                    assert(self.pending(kind) =~= old(self).pending(kind).insert(key, self.pending(kind)[key]));
                }
                true
            },
        }
    }

    /// Adds the last fragment to the buffer under `key`, removes it, and returns its bytes;
    /// `None`, changing nothing, when no buffer is pending there.
    pub fn finish_fragments(&mut self, kind: FragmentKind, key: u32, last: &[u8]) -> (r: Option<Vec<u8>>)
        requires
            old(self).wf(),
        ensures
            final(self).wf(),
            r is Some == old(self).pending(kind).contains_key(key),
            final(self).pending(kind) == old(self).pending(kind).remove(key),
            r matches Some(v) ==> v@ == fill(
                old(self).pending(kind)[key].data@,
                last@,
                old(self).pending(kind)[key].capacity as int,
            ),
            final(self).pending(other_kind(kind)) == old(self).pending(other_kind(kind)),
    {
        let removed = match kind {
            FragmentKind::Object => self.pending_obj_segments.remove(&key),
            FragmentKind::IgComposition => self.pending_ig_segments.remove(&key),
        };
        match removed {
            None => None,
            Some(buf) => {
                let mut buf = buf;
                fill_buffer(&mut buf, last);
                Some(buf.data)
            },
        }
    }
}

/// Every buffer of a map holds at most its capacity.
pub open spec fn buffers_ok(m: Map<u32, FragmentBuffer>) -> bool {
    forall|k: u32| #[trigger] m.contains_key(k) ==> m[k].data@.len() <= m[k].capacity
}

/// The other map.
pub open spec fn other_kind(kind: FragmentKind) -> FragmentKind {
    match kind {
        FragmentKind::Object => FragmentKind::IgComposition,
        FragmentKind::IgComposition => FragmentKind::Object,
    }
}

/// `new` is `old` after a read of `n` bytes that succeeded exactly when they were there.
pub open spec fn fixed_read<'a>(old: SliceReader<'a>, new: SliceReader<'a>, n: int, ok: bool) -> bool {
    &&& ok <==> old.rest().len() >= n
    &&& ok ==> SliceReader::advanced(old, new, n)
}

/// A YCbCr colour with transparency.
#[derive(Debug, Clone, Copy, PartialEq, Eq, Structural)]
pub struct PgsPaletteEntry {
    /// Luminance.
    pub y: u8,
    /// Red chrominance.
    pub cr: u8,
    /// Blue chrominance.
    pub cb: u8,
    /// Transparency.
    pub t: u8,
}

fn blank_palette() -> (r: Vec<PgsPaletteEntry>)
    ensures
        r@.len() == 256,
        forall|i: int| 0 <= i < 256 ==> r@[i] == (PgsPaletteEntry { y: 0, cr: 0, cb: 0, t: 0 }),
{
    let mut v: Vec<PgsPaletteEntry> = Vec::new();
    while v.len() < 256
        invariant
            v@.len() <= 256,
            forall|i: int| 0 <= i < v@.len() ==> v@[i] == (PgsPaletteEntry { y: 0, cr: 0, cb: 0, t: 0 }),
        decreases 256 - v@.len(),
    {
        v.push(PgsPaletteEntry { y: 0, cr: 0, cb: 0, t: 0 });
    }
    v
}

/// Reads one `(index, Y, Cr, Cb, T)` record into a 256-entry palette.
fn read_palette_entry(reader: &mut SliceReader, entries: &mut Vec<PgsPaletteEntry>) -> (r: Result<(), Error>)
    requires
        old(entries)@.len() == 256,
    ensures
        no_lost_sync(r),
        final(entries)@.len() == 256,
        fixed_read(*old(reader), *final(reader), 5, r is Ok),
        r is Ok ==> {
            let s = old(reader).rest();
            final(entries)@ == old(entries)@.update(s[0] as int, PgsPaletteEntry { y: s[1], cr: s[2], cb: s[3], t: s[4] })
        },
{
    let ghost s = reader.rest();
    let b = reader.read(5)?;
    assert(b@ =~= s.subrange(0, 5));
    entries.set(b[0] as usize, PgsPaletteEntry { y: b[1], cr: b[2], cb: b[3], t: b[4] });
    Ok(())
}

/// A palette of 256 colours; entries that the segment does not set stay zero.
#[derive(Debug)]
pub struct PgsPalette {
    pub id: u8,
    pub version: u8,
    pub entries: Vec<PgsPaletteEntry>,
}

impl PgsPalette {
    /// Reads id and version, then `(index, Y, Cr, Cb, T)` records until the segment ends.
    pub fn parse(reader: &mut SliceReader) -> (r: Result<PgsPalette, Error>)
        ensures
            no_lost_sync(r),
            r is Ok <==> old(reader).rest().len() >= 2 && (old(reader).rest().len() - 2) % 5 == 0,
            r is Ok ==> {
                let p = r->Ok_0;
                &&& p.id == old(reader).rest()[0]
                &&& p.version == old(reader).rest()[1]
                &&& p.entries@.len() == 256
                &&& final(reader).rest().len() == 0
            },
    {
        let ghost s = reader.rest();
        let id = reader.read_u8()?;
        let version = reader.read_u8()?;
        let mut entries = blank_palette();
        while reader.remaining_len() > 0
            invariant
                entries@.len() == 256,
                s == old(reader).rest(),
                s.len() >= 2,
                (s.len() - 2) % 5 == reader.rest().len() % 5,
            decreases reader.rest().len(),
        {
            read_palette_entry(reader, &mut entries)?;
        }
        Ok(PgsPalette { id, version, entries })
    }
}

/// Flags that place a fragment in a sequence: first and last.
#[derive(Debug, Clone, Copy, PartialEq, Eq, Structural)]
pub struct PgSequenceDescriptor {
    pub first_in_seq: bool,
    pub last_in_seq: bool,
}

impl PgSequenceDescriptor {
    /// Reads the flag byte: first in bit 7, last in bit 6.
    pub fn parse(reader: &mut SliceReader) -> (r: Result<PgSequenceDescriptor, Error>)
        ensures
            no_lost_sync(r),
            fixed_read(*old(reader), *final(reader), 1, r is Ok),
            r is Ok ==> r->Ok_0 == (PgSequenceDescriptor {
                first_in_seq: (old(reader).rest()[0] >> 7u8) & 1 == 1,
                last_in_seq: (old(reader).rest()[0] >> 6u8) & 1 == 1,
            }),
    {
        let bits = reader.read_u8()?;
        Ok(PgSequenceDescriptor { first_in_seq: (bits >> 7u8) & 1 == 1, last_in_seq: (bits >> 6u8) & 1 == 1 })
    }
}

/// Frame rate of a graphics stream.
#[derive(Debug, Clone, Copy, PartialEq, Eq, Structural)]
pub enum FrameRate {
    Invalid,
    /// 24000/1001 Hz.
    Drop24,
    /// 24 Hz.
    NonDrop24,
    /// 25 Hz.
    NonDrop25,
    /// 30000/1001 Hz.
    Drop30,
    /// 50 Hz.
    NonDrop50,
    /// 60000/1001 Hz.
    Drop60,
}

/// The frame rate a 4-bit code names.
pub open spec fn frame_rate_of(v: u8) -> Option<FrameRate> {
    if v == 0 { Some(FrameRate::Invalid) }
    else if v == 1 { Some(FrameRate::Drop24) }
    else if v == 2 { Some(FrameRate::NonDrop24) }
    else if v == 3 { Some(FrameRate::NonDrop25) }
    else if v == 4 { Some(FrameRate::Drop30) }
    else if v == 5 { Some(FrameRate::NonDrop50) }
    else if v == 6 { Some(FrameRate::Drop60) }
    else { None }
}

impl FrameRate {
    /// Decodes a frame-rate code.
    pub fn from_code(v: u8) -> (r: Option<FrameRate>)
        ensures
            r == frame_rate_of(v),
    {
        if v == 0 { Some(FrameRate::Invalid) }
        else if v == 1 { Some(FrameRate::Drop24) }
        else if v == 2 { Some(FrameRate::NonDrop24) }
        else if v == 3 { Some(FrameRate::NonDrop25) }
        else if v == 4 { Some(FrameRate::Drop30) }
        else if v == 5 { Some(FrameRate::NonDrop50) }
        else if v == 6 { Some(FrameRate::Drop60) }
        else { None }
    }
}

/// Size and frame rate of the video a composition overlays.
#[derive(Debug, Clone, Copy, PartialEq, Eq, Structural)]
pub struct PgVideoDescriptor {
    pub video_width: u16,
    pub video_height: u16,
    pub frame_rate: FrameRate,
}

impl PgVideoDescriptor {
    /// Reads width, height and the frame-rate code (high nibble of the fifth byte).
    pub fn parse(reader: &mut SliceReader) -> (r: Result<PgVideoDescriptor, Error>)
        ensures
            no_lost_sync(r),
            ({
                let s = old(reader).rest();
                &&& r is Ok <==> s.len() >= 5 && frame_rate_of(s[4] >> 4u8) is Some
                &&& r is Ok ==> r->Ok_0 == (PgVideoDescriptor {
                    video_width: be16_at(s, 0) as u16,
                    video_height: be16_at(s, 2) as u16,
                    frame_rate: frame_rate_of(s[4] >> 4u8)->Some_0,
                }) && SliceReader::advanced(*old(reader), *final(reader), 5)
                &&& s.len() >= 5 && r is Err ==> r->Err_0.details == ErrorDetails::AppError(
                    BdavErrorDetails::UnknownFrameRate(s[4] >> 4u8),
                )
            }),
    {
        let ghost s = reader.rest();
        let b = reader.read(5)?;
        assert(b@ =~= s.subrange(0, 5));
        let code = b[4] >> 4u8;
        match FrameRate::from_code(code) {
            Some(frame_rate) => Ok(PgVideoDescriptor { video_width: u16_at(b, 0), video_height: u16_at(b, 2), frame_rate }),
            None => Err(reader.make_error(ErrorDetails::AppError(BdavErrorDetails::UnknownFrameRate(code)))),
        }
    }
}

/// How a composition relates to the ones before it.
#[derive(Debug, Clone, Copy, PartialEq, Eq, Structural)]
pub enum PgCompositionUnitState {
    Incremental,
    NewPalette,
    EpochStart,
}

/// The state a 2-bit code names.
pub open spec fn unit_state_of(v: u8) -> Option<PgCompositionUnitState> {
    if v == 0 { Some(PgCompositionUnitState::Incremental) }
    else if v == 1 { Some(PgCompositionUnitState::NewPalette) }
    else if v == 2 { Some(PgCompositionUnitState::EpochStart) }
    else { None }
}

/// The code of a state.
pub open spec fn unit_state_code(st: PgCompositionUnitState) -> u8 {
    match st {
        PgCompositionUnitState::Incremental => 0,
        PgCompositionUnitState::NewPalette => 1,
        PgCompositionUnitState::EpochStart => 2,
    }
}

/// Number and state of a composition.
#[derive(Debug, Clone, Copy, PartialEq, Eq, Structural)]
pub struct PgCompositionDescriptor {
    pub number: u16,
    pub state: PgCompositionUnitState,
}

/// The key under which the fragments of a composition are kept.
pub open spec fn composition_key(d: PgCompositionDescriptor) -> u32 {
    ((d.number as u32) << 8u32) | (unit_state_code(d.state) as u32)
}

impl PgCompositionDescriptor {
    /// Reads the number and the state code (top two bits of the third byte).
    pub fn parse(reader: &mut SliceReader) -> (r: Result<PgCompositionDescriptor, Error>)
        ensures
            no_lost_sync(r),
            ({
                let s = old(reader).rest();
                &&& r is Ok <==> s.len() >= 3 && unit_state_of(s[2] >> 6u8) is Some
                &&& r is Ok ==> r->Ok_0 == (PgCompositionDescriptor {
                    number: be16_at(s, 0) as u16,
                    state: unit_state_of(s[2] >> 6u8)->Some_0,
                }) && SliceReader::advanced(*old(reader), *final(reader), 3)
                &&& s.len() >= 3 && r is Err ==> r->Err_0.details == ErrorDetails::AppError(
                    BdavErrorDetails::UnknownPgCompositionUnitState(s[2] >> 6u8),
                )
            }),
    {
        let ghost s = reader.rest();
        let b = reader.read(3)?;
        assert(b@ =~= s.subrange(0, 3));
        let code = b[2] >> 6u8;
        let state = if code == 0 {
            PgCompositionUnitState::Incremental
        } else if code == 1 {
            PgCompositionUnitState::NewPalette
        } else if code == 2 {
            PgCompositionUnitState::EpochStart
        } else {
            return Err(reader.make_error(ErrorDetails::AppError(BdavErrorDetails::UnknownPgCompositionUnitState(code))));
        };
        Ok(PgCompositionDescriptor { number: u16_at(b, 0), state })
    }

    /// The key under which the fragments of this composition are kept.
    pub fn key(&self) -> (r: u32)
        ensures
            r == composition_key(*self),
    {
        let code: u8 = match self.state {
            PgCompositionUnitState::Incremental => 0,
            PgCompositionUnitState::NewPalette => 1,
            PgCompositionUnitState::EpochStart => 2,
        };
        ((self.number as u32) << 8u32) | (code as u32)
    }
}

/// A window rectangle of a composition.
#[derive(Debug, Clone, Copy, PartialEq, Eq, Structural)]
pub struct PgWindow {
    /// Window id.
    pub id: u8,
    /// X position.
    pub x: u16,
    /// Y position.
    pub y: u16,
    /// Width.
    pub width: u16,
    /// Height.
    pub height: u16,
}

/// The pg window that the first 9 bytes of `s` encode.
pub open spec fn pg_window_of(s: Seq<u8>) -> PgWindow {
    PgWindow {
        id: s[0],
        x: be16_at(s, 1) as u16,
        y: be16_at(s, 3) as u16,
        width: be16_at(s, 5) as u16,
        height: be16_at(s, 7) as u16,
    }
}

impl PgWindow {
    /// Reads 9 bytes.
    pub fn parse(reader: &mut SliceReader) -> (r: Result<PgWindow, Error>)
        ensures
            no_lost_sync(r),
            fixed_read(*old(reader), *final(reader), 9, r is Ok),
            r is Ok ==> r->Ok_0 == pg_window_of(old(reader).rest()),
    {
        let ghost s = reader.rest();
        let b = reader.read(9)?;
        assert(b@ =~= s.subrange(0, 9));
        Ok(PgWindow {
            id: b[0],
            x: u16_at(b, 1),
            y: u16_at(b, 3),
            width: u16_at(b, 5),
            height: u16_at(b, 7),
        })
    }
}

/// Cropping rectangle of a composition object.
#[derive(Debug, Clone, Copy, PartialEq, Eq, Structural)]
pub struct PgCrop {
    /// X position.
    pub x: u16,
    /// Y position.
    pub y: u16,
    /// Width.
    pub w: u16,
    /// Height.
    pub h: u16,
}

/// The pg crop that the first 8 bytes of `s` encode.
pub open spec fn pg_crop_of(s: Seq<u8>) -> PgCrop {
    PgCrop {
        x: be16_at(s, 0) as u16,
        y: be16_at(s, 2) as u16,
        w: be16_at(s, 4) as u16,
        h: be16_at(s, 6) as u16,
    }
}

impl PgCrop {
    /// Reads 8 bytes.
    pub fn parse(reader: &mut SliceReader) -> (r: Result<PgCrop, Error>)
        ensures
            no_lost_sync(r),
            fixed_read(*old(reader), *final(reader), 8, r is Ok),
            r is Ok ==> r->Ok_0 == pg_crop_of(old(reader).rest()),
    {
        let ghost s = reader.rest();
        let b = reader.read(8)?;
        assert(b@ =~= s.subrange(0, 8));
        Ok(PgCrop {
            x: u16_at(b, 0),
            y: u16_at(b, 2),
            w: u16_at(b, 4),
            h: u16_at(b, 6),
        })
    }
}

/// A text subtitle rectangle.
#[derive(Debug, Clone, Copy, PartialEq, Eq, Structural)]
pub struct TgRect {
    /// X position.
    pub xpos: u16,
    /// Y position.
    pub ypos: u16,
    /// Width.
    pub width: u16,
    /// Height.
    pub height: u16,
}

/// The tg rect that the first 8 bytes of `s` encode.
pub open spec fn tg_rect_of(s: Seq<u8>) -> TgRect {
    TgRect {
        xpos: be16_at(s, 0) as u16,
        ypos: be16_at(s, 2) as u16,
        width: be16_at(s, 4) as u16,
        height: be16_at(s, 6) as u16,
    }
}

impl TgRect {
    /// Reads 8 bytes.
    pub fn parse(reader: &mut SliceReader) -> (r: Result<TgRect, Error>)
        ensures
            no_lost_sync(r),
            fixed_read(*old(reader), *final(reader), 8, r is Ok),
            r is Ok ==> r->Ok_0 == tg_rect_of(old(reader).rest()),
    {
        let ghost s = reader.rest();
        let b = reader.read(8)?;
        assert(b@ =~= s.subrange(0, 8));
        Ok(TgRect {
            xpos: u16_at(b, 0),
            ypos: u16_at(b, 2),
            width: u16_at(b, 4),
            height: u16_at(b, 6),
        })
    }
}

/// An object placed in a composition.
#[derive(Debug, Clone, Copy, PartialEq, Eq, Structural)]
pub struct PgCompositionObject {
    pub object_id_ref: u16,
    pub window_id_ref: u8,
    pub forced_on_flag: bool,
    pub x: u16,
    pub y: u16,
    /// Present when bit 7 of the flags byte is set.
    pub crop: Option<PgCrop>,
}

impl PgCompositionObject {
    /// Reads an object reference, the flags byte, the position, and the crop rectangle when
    /// flagged.
    pub fn parse(reader: &mut SliceReader) -> (r: Result<PgCompositionObject, Error>)
        ensures
            ({
                let s = old(reader).rest();
                let has_crop = s.len() >= 4 && (s[3] >> 7u8) & 1 == 1;
                let n: int = if has_crop { 16 } else { 8 };
                &&& r is Ok <==> s.len() >= n
                &&& item_read(*old(reader), *final(reader), comp_obj_sizer(), r is Ok)
                &&& no_lost_sync(r)
                &&& r is Ok ==> {
                    let o = r->Ok_0;
                    &&& o.object_id_ref == be16_at(s, 0)
                    &&& o.window_id_ref == s[2]
                    &&& o.forced_on_flag == ((s[3] >> 6u8) & 1 == 1)
                    &&& o.x == be16_at(s, 4)
                    &&& o.y == be16_at(s, 6)
                    &&& o.crop == (if has_crop { Some(pg_crop_of(s.subrange(8, 16))) } else { None })
                    &&& SliceReader::advanced(*old(reader), *final(reader), n)
                }
            }),
    {
        let ghost s = reader.rest();
        let b = reader.read(8)?;
        assert(b@ =~= s.subrange(0, 8));
        let crop = if (b[3] >> 7u8) & 1 == 1 {
            assert(reader.rest() =~= s.subrange(8, s.len() as int));
            Some(PgCrop::parse(reader)?)
        } else {
            None
        };
        proof {
            if crop is Some {
                assert(reader.rest() =~= s.subrange(16, s.len() as int));
            }
        }
        Ok(PgCompositionObject {
            object_id_ref: u16_at(b, 0),
            window_id_ref: b[2],
            forced_on_flag: (b[3] >> 6u8) & 1 == 1,
            x: u16_at(b, 4),
            y: u16_at(b, 6),
            crop,
        })
    }
}

/// `Some(k + m)` for `Some(m)`.
pub open spec fn opt_add(k: int, o: Option<int>) -> Option<int> {
    match o {
        Some(m) => Some(k + m),
        None => None,
    }
}

/// The bytes that `n` consecutive items take at the start of `s`, where each item's size is
/// what `f` says; `None` where one of them does not decode.
pub open spec fn list_size(s: Seq<u8>, n: nat, f: spec_fn(Seq<u8>) -> Option<int>) -> Option<int>
    decreases n,
{
    if n == 0 {
        Some(0)
    } else {
        match f(s) {
            Some(k) => if 0 <= k <= s.len() {
                opt_add(k, list_size(s.subrange(k, s.len() as int), (n - 1) as nat, f))
            } else {
                None
            },
            None => None,
        }
    }
}

/// The bytes that a composition object takes: 8, or 16 with a crop rectangle.
pub open spec fn comp_obj_size(s: Seq<u8>) -> Option<int> {
    if s.len() < 8 {
        None
    } else if (s[3] >> 7u8) & 1 == 1 {
        if s.len() >= 16 { Some(16) } else { None }
    } else {
        Some(8)
    }
}

pub open spec fn comp_obj_sizer() -> spec_fn(Seq<u8>) -> Option<int> {
    |s: Seq<u8>| comp_obj_size(s)
}

/// The bytes that a window takes.
pub open spec fn window_size(s: Seq<u8>) -> Option<int> {
    if s.len() >= 9 { Some(9) } else { None }
}

pub open spec fn window_sizer() -> spec_fn(Seq<u8>) -> Option<int> {
    |s: Seq<u8>| window_size(s)
}

/// What a reader of a list of `n` items promises.
pub open spec fn list_read<'a>(
    old: SliceReader<'a>,
    new: SliceReader<'a>,
    n: nat,
    f: spec_fn(Seq<u8>) -> Option<int>,
    ok: bool,
) -> bool {
    &&& ok <==> list_size(old.rest(), n, f) is Some
    &&& ok ==> SliceReader::advanced(old, new, list_size(old.rest(), n, f)->Some_0)
}

/// What a reader of one item promises.
pub open spec fn item_read<'a>(
    old: SliceReader<'a>,
    new: SliceReader<'a>,
    f: spec_fn(Seq<u8>) -> Option<int>,
    ok: bool,
) -> bool {
    &&& ok <==> f(old.rest()) is Some
    &&& ok ==> SliceReader::advanced(old, new, f(old.rest())->Some_0)
}

fn read_composition_objects(reader: &mut SliceReader, n: u8) -> (r: Result<Vec<PgCompositionObject>, Error>)
    ensures
        list_read(*old(reader), *final(reader), n as nat, comp_obj_sizer(), r is Ok),
        r is Ok ==> r->Ok_0@.len() == n,
        no_lost_sync(r),
{
    let ghost full = reader.rest();
    let ghost start = *reader;
    let ghost mut used: int = 0;
    let mut out: Vec<PgCompositionObject> = Vec::new();
    let mut i: u8 = 0;
    assert(full.subrange(0, full.len() as int) =~= full);
    while i < n
        invariant
            out@.len() == i,
            i <= n,
            start == *old(reader),
            full == start.rest(),
            0 <= used <= full.len(),
            SliceReader::advanced(start, *reader, used),
            list_size(full, n as nat, comp_obj_sizer()) == opt_add(used, list_size(reader.rest(), (n - i) as nat, comp_obj_sizer())),
        decreases n - i,
    {
        let ghost before = reader.rest();
        let o = PgCompositionObject::parse(reader);
        match o {
            Ok(x) => {
                out.push(x);
            },
            Err(e) => {
                return Err(e);
            },
        }
        proof {
            let k = comp_obj_size(before)->Some_0;
            assert(reader.rest() =~= full.subrange(used + k, full.len() as int));
            used = used + k;
        }
        i = i + 1;
    }
    Ok(out)
}

fn read_windows(reader: &mut SliceReader, n: u8) -> (r: Result<Vec<PgWindow>, Error>)
    ensures
        list_read(*old(reader), *final(reader), n as nat, window_sizer(), r is Ok),
        r is Ok ==> r->Ok_0@.len() == n,
        no_lost_sync(r),
{
    let ghost full = reader.rest();
    let ghost start = *reader;
    let ghost mut used: int = 0;
    let mut out: Vec<PgWindow> = Vec::new();
    let mut i: u8 = 0;
    assert(full.subrange(0, full.len() as int) =~= full);
    while i < n
        invariant
            out@.len() == i,
            i <= n,
            start == *old(reader),
            full == start.rest(),
            0 <= used <= full.len(),
            SliceReader::advanced(start, *reader, used),
            list_size(full, n as nat, window_sizer()) == opt_add(used, list_size(reader.rest(), (n - i) as nat, window_sizer())),
        decreases n - i,
    {
        let ghost before = reader.rest();
        let o = PgWindow::parse(reader);
        match o {
            Ok(x) => {
                out.push(x);
            },
            Err(e) => {
                return Err(e);
            },
        }
        proof {
            assert(reader.rest() =~= full.subrange(used + 9, full.len() as int));
            used = used + 9;
        }
        i = i + 1;
    }
    Ok(out)
}

/// A presentation graphics composition.
#[derive(Debug)]
pub struct PgsPgComposition {
    pub video_descriptor: PgVideoDescriptor,
    pub composition_descriptor: PgCompositionDescriptor,
    /// Only the palette changes.
    pub palette_update_flag: bool,
    pub palette_id_ref: u8,
    pub composition_objects: Vec<PgCompositionObject>,
}

/// Whether a presentation graphics composition decodes from `s`.
pub open spec fn pg_composition_ok(s: Seq<u8>) -> bool {
    &&& s.len() >= 11
    &&& frame_rate_of(s[4] >> 4u8) is Some
    &&& unit_state_of(s[7] >> 6u8) is Some
    &&& list_size(s.subrange(11, s.len() as int), s[10] as nat, comp_obj_sizer()) is Some
}

impl PgsPgComposition {
    /// Reads the descriptors, the palette flag and reference, and a counted list of objects.
    pub fn parse(reader: &mut SliceReader) -> (r: Result<PgsPgComposition, Error>)
        ensures
            r is Ok <==> pg_composition_ok(old(reader).rest()),
            no_lost_sync(r),
            r is Ok ==> {
                let s = old(reader).rest();
                let c = r->Ok_0;
                &&& c.video_descriptor == (PgVideoDescriptor {
                    video_width: be16_at(s, 0) as u16,
                    video_height: be16_at(s, 2) as u16,
                    frame_rate: frame_rate_of(s[4] >> 4u8)->Some_0,
                })
                &&& c.composition_descriptor == (PgCompositionDescriptor {
                    number: be16_at(s, 5) as u16,
                    state: unit_state_of(s[7] >> 6u8)->Some_0,
                })
                &&& c.palette_update_flag == ((s[8] >> 7u8) & 1 == 1)
                &&& c.palette_id_ref == s[9]
                &&& c.composition_objects@.len() == s[10]
            },
    {
        let ghost s = reader.rest();
        let video_descriptor = PgVideoDescriptor::parse(reader)?;
        assert(reader.rest() =~= s.subrange(5, s.len() as int));
        let composition_descriptor = PgCompositionDescriptor::parse(reader)?;
        assert(reader.rest() =~= s.subrange(8, s.len() as int));
        assert(be16_at(s.subrange(5, s.len() as int), 0) == be16_at(s, 5));
        let b = reader.read(3)?;
        assert(b@ =~= s.subrange(8, 11));
        assert(reader.rest() =~= s.subrange(11, s.len() as int));
        let composition_objects = read_composition_objects(reader, b[2])?;
        Ok(PgsPgComposition {
            video_descriptor,
            composition_descriptor,
            palette_update_flag: (b[0] >> 7u8) & 1 == 1,
            palette_id_ref: b[1],
            composition_objects,
        })
    }
}

/// A set of windows.
#[derive(Debug)]
pub struct PgsWindow {
    pub windows: Vec<PgWindow>,
}

impl PgsWindow {
    /// Reads a counted list of 9-byte windows.
    pub fn parse(reader: &mut SliceReader) -> (r: Result<PgsWindow, Error>)
        ensures
            r is Ok <==> old(reader).rest().len() >= 1 && old(reader).rest().len() >= 1 + 9 * old(reader).rest()[0],
            no_lost_sync(r),
            r is Ok ==> {
                let s = old(reader).rest();
                &&& r->Ok_0.windows@.len() == s[0]
                &&& forall|k: int| 0 <= k < s[0] ==> r->Ok_0.windows@[k] == pg_window_of(s.subrange(1 + 9 * k, 10 + 9 * k))
            },
    {
        let ghost s = reader.rest();
        let n = reader.read_u8()?;
        let ghost body = reader.rest();
        let mut windows: Vec<PgWindow> = Vec::new();
        let mut i: u8 = 0;
        while i < n
            invariant
                i <= n,
                n == s[0],
                s.len() >= 1,
                body == s.subrange(1, s.len() as int),
                windows@.len() == i,
                reader.rest() == body.subrange(9 * i, body.len() as int),
                body.len() >= 9 * i,
                forall|k: int| 0 <= k < i ==> windows@[k] == pg_window_of(s.subrange(1 + 9 * k, 10 + 9 * k)),
                s == old(reader).rest(),
            decreases n - i,
        {
            let ghost before = reader.rest();
            let w = match PgWindow::parse(reader) {
                Ok(w) => w,
                Err(e) => {
                    return Err(e);
                },
            };
            proof {
                assert(pg_window_of(before) == pg_window_of(s.subrange(1 + 9 * i, 10 + 9 * i)));
                assert(reader.rest() =~= body.subrange(9 * (i + 1), body.len() as int));
            }
            windows.push(w);
            i = i + 1;
        }
        Ok(PgsWindow { windows })
    }
}

/// The decoded bitmap of an object.
#[derive(Debug)]
pub struct PgsObjectData {
    pub width: u16,
    pub height: u16,
    /// Run-length encoded pixels.
    pub data: Vec<u8>,
}

impl PgsObjectData {
    /// Reads width and height; the rest is the bitmap.
    pub fn parse(reader: &mut SliceReader) -> (r: Result<PgsObjectData, Error>)
        ensures
            no_lost_sync(r),
            ({
                let s = old(reader).rest();
                &&& r is Ok <==> s.len() >= 4
                &&& r is Ok ==> {
                    let d = r->Ok_0;
                    &&& d.width == be16_at(s, 0)
                    &&& d.height == be16_at(s, 2)
                    &&& d.data@ == s.subrange(4, s.len() as int)
                }
            }),
    {
        let ghost s = reader.rest();
        let b = reader.read(4)?;
        assert(b@ =~= s.subrange(0, 4));
        let rest = reader.read_to_end()?;
        let mut data: Vec<u8> = Vec::new();
        data.extend_from_slice(rest);
        assert(data@ =~= s.subrange(4, s.len() as int));
        Ok(PgsObjectData { width: u16_at(b, 0), height: u16_at(b, 2), data })
    }
}

/// The key under which the fragments of an object are kept.
pub open spec fn object_key(id: u16, version: u8) -> u32 {
    ((id as u32) << 8u32) | (version as u32)
}

/// Whether an object segment body decodes, given the pending object fragments.
pub open spec fn object_ok(s: Seq<u8>, old_map: Map<u32, FragmentBuffer>) -> bool {
    let key = object_key(be16_at(s, 0) as u16, s[2]);
    let first = (s[3] >> 7u8) & 1 == 1;
    let last = (s[3] >> 6u8) & 1 == 1;
    s.len() >= 4 && (first && last ==> s.len() >= 11) && (first && !last ==> s.len() >= 7) && (!first
        ==> old_map.contains_key(key)) && (!first && last ==> fill(
        old_map[key].data@,
        s.subrange(4, s.len() as int),
        old_map[key].capacity as int,
    ).len() >= 4)
}

/// A graphics object, possibly one fragment of it.
#[derive(Debug)]
pub struct PgsObject {
    pub id: u16,
    pub version: u8,
    pub sequence_descriptor: PgSequenceDescriptor,
    /// The bitmap, once the last fragment has arrived.
    pub data: Option<PgsObjectData>,
}

impl PgsObject {
    /// Reads an object segment. A whole object is decoded at once; a first fragment starts a
    /// buffer of its declared length, middle fragments add to it, and the last one completes
    /// and decodes it.
    pub fn parse(reader: &mut SliceReader, storage: &mut BdavParserStorage) -> (r: Result<PgsObject, Error>)
        requires
            old(storage).wf(),
        ensures
            no_lost_sync(r),
            final(storage).wf(),
            ({
                let s = old(reader).rest();
                let key = object_key(be16_at(s, 0) as u16, s[2]);
                let first = (s[3] >> 7u8) & 1 == 1;
                let last = (s[3] >> 6u8) & 1 == 1;
                let old_map = old(storage).pending(FragmentKind::Object);
                let new_map = final(storage).pending(FragmentKind::Object);
                &&& final(storage).pending(FragmentKind::IgComposition) == old(storage).pending(FragmentKind::IgComposition)
                &&& r is Ok ==> {
                    let o = r->Ok_0;
                    &&& s.len() >= 4
                    &&& o.id == be16_at(s, 0) && o.version == s[2]
                    &&& o.sequence_descriptor.first_in_seq == first
                    &&& o.sequence_descriptor.last_in_seq == last
                    &&& (o.data is Some <==> last)
                    &&& first && !last ==> s.len() >= 7 && new_map.contains_key(key)
                        && new_map[key].capacity == be24_at(s, 4)
                        && new_map[key].data@ == fill(Seq::empty(), s.subrange(7, s.len() as int), be24_at(s, 4))
                    &&& !first && !last ==> old_map.contains_key(key) && new_map.contains_key(key)
                        && new_map[key].data@ == fill(old_map[key].data@, s.subrange(4, s.len() as int), old_map[key].capacity as int)
                    &&& !first && last ==> old_map.contains_key(key) && !new_map.contains_key(key)
                }
                &&& s.len() >= 4 && !first && !old_map.contains_key(key) ==> r is Err
                    && r->Err_0.details == ErrorDetails::AppError(BdavErrorDetails::NonStartedPgsObject)
                &&& r is Ok <==> object_ok(s, old_map)
                &&& r is Ok && first && last ==> {
                    let d = r->Ok_0.data->Some_0;
                    d.width == be16_at(s, 7) && d.height == be16_at(s, 9) && d.data@ == s.subrange(11, s.len() as int)
                }
                &&& r is Ok && !first && last ==> {
                    let d = r->Ok_0.data->Some_0;
                    let buf = fill(old_map[key].data@, s.subrange(4, s.len() as int), old_map[key].capacity as int);
                    d.width == be16_at(buf, 0) && d.height == be16_at(buf, 2) && d.data@ == buf.subrange(4, buf.len() as int)
                }
                &&& first && last ==> new_map == old_map
                &&& r is Err && !(s.len() >= 4 && !first && last) ==> new_map == old_map
                &&& r is Err && s.len() >= 4 && !first && last ==> new_map == old_map.remove(key)
            }),
    {
        let ghost s = reader.rest();
        let b = reader.read(4)?;
        assert(b@ =~= s.subrange(0, 4));
        assert(reader.rest() =~= s.subrange(4, s.len() as int));
        let id = u16_at(b, 0);
        let version = b[2];
        let sequence_descriptor = PgSequenceDescriptor {
            first_in_seq: (b[3] >> 7u8) & 1 == 1,
            last_in_seq: (b[3] >> 6u8) & 1 == 1,
        };
        let key = ((id as u32) << 8u32) | (version as u32);
        if sequence_descriptor.first_in_seq && sequence_descriptor.last_in_seq {
            let _length = reader.read_be_u24()?;
            assert(reader.rest() =~= s.subrange(7, s.len() as int));
            let data = PgsObjectData::parse(reader)?;
            assert(s.subrange(7, s.len() as int).subrange(4, s.len() - 7) =~= s.subrange(11, s.len() as int));
            Ok(PgsObject { id, version, sequence_descriptor, data: Some(data) })
        } else if sequence_descriptor.first_in_seq {
            let length = reader.read_be_u24()?;
            assert(reader.rest() =~= s.subrange(7, s.len() as int));
            let rest = reader.read_to_end()?;
            storage.start_fragments(FragmentKind::Object, key, length as usize, rest);
            Ok(PgsObject { id, version, sequence_descriptor, data: None })
        } else if !sequence_descriptor.last_in_seq {
            let rest = reader.read_to_end()?;
            if storage.continue_fragments(FragmentKind::Object, key, rest) {
                Ok(PgsObject { id, version, sequence_descriptor, data: None })
            } else {
                Err(reader.make_error(ErrorDetails::AppError(BdavErrorDetails::NonStartedPgsObject)))
            }
        } else {
            let rest = reader.read_to_end()?;
            match storage.finish_fragments(FragmentKind::Object, key, rest) {
                Some(full) => {
                    let mut fr = SliceReader::new(full.as_slice());
                    let data = PgsObjectData::parse(&mut fr)?;
                    Ok(PgsObject { id, version, sequence_descriptor, data: Some(data) })
                },
                None => Err(reader.make_error(ErrorDetails::AppError(BdavErrorDetails::NonStartedPgsObject))),
            }
        }
    }
}

/// User operations that a page masks, as 64 bits, most significant first: menu call, title
/// search, chapter search, time search, skip to next point, skip to previous point, play first
/// play, stop, pause on, pause off, still off, forward, backward, resume, move up, move down,
/// move left, move right, select, activate, select and activate, primary audio change, one
/// reserved bit, angle change, popup on, popup off, PG enable/disable, PG change, secondary
/// video enable/disable, secondary video change, secondary audio enable/disable, secondary
/// audio change, one reserved bit, PiP PG change, then 30 reserved bits.
#[derive(Debug, Clone, Copy, PartialEq, Eq, Structural)]
pub struct UoMask {
    pub bits: u64,
}

impl UoMask {
    /// Whether the operation at position `i` (0 is the most significant bit) is masked.
    pub fn is_masked(&self, i: u32) -> (r: bool)
        requires
            i < 64,
        ensures
            r == ((self.bits >> (63 - i) as u64) & 1 == 1),
    {
        (self.bits >> (63 - i) as u64) & 1 == 1
    }
}

fn read_u64(reader: &mut SliceReader) -> (r: Result<u64, Error>)
    ensures
        no_lost_sync(r),
        fixed_read(*old(reader), *final(reader), 8, r is Ok),
{
    let b = reader.read(8)?;
    let mut v: u64 = 0;
    let mut i: usize = 0;
    while i < 8
        invariant
            b@.len() == 8,
            i <= 8,
        decreases 8 - i,
    {
        v = (v << 8u64) | (b[i] as u64);
        i = i + 1;
    }
    Ok(v)
}

/// The bytes that an effect takes: duration, palette and a counted list of objects.
pub open spec fn effect_size(s: Seq<u8>) -> Option<int> {
    if s.len() < 5 {
        None
    } else {
        opt_add(5, list_size(s.subrange(5, s.len() as int), s[4] as nat, comp_obj_sizer()))
    }
}

pub open spec fn effect_sizer() -> spec_fn(Seq<u8>) -> Option<int> {
    |s: Seq<u8>| effect_size(s)
}

/// The bytes that an effect sequence takes: counted windows, then counted effects.
pub open spec fn effect_seq_size(s: Seq<u8>) -> Option<int> {
    if s.len() < 1 || s.len() < 2 + 9 * s[0] {
        None
    } else {
        let e = 1 + 9 * s[0];
        opt_add(e + 1, list_size(s.subrange(e + 1, s.len() as int), s[e] as nat, effect_sizer()))
    }
}

pub open spec fn effect_seq_sizer() -> spec_fn(Seq<u8>) -> Option<int> {
    |s: Seq<u8>| effect_seq_size(s)
}

/// Whether the `n` commands of a button at `s[35..]` all decode.
pub open spec fn nav_cmds_ok(s: Seq<u8>, n: int) -> bool {
    forall|k: int| 0 <= k < n ==> (#[trigger] cmd_opcode_of(cmd_of_bytes(s.subrange(35 + 12 * k, 47 + 12 * k)))) is Ok
}

/// The bytes that a button takes: 35 fixed bytes and its 12-byte commands, which must decode.
pub open spec fn button_size(s: Seq<u8>) -> Option<int> {
    if s.len() >= 35 && s.len() >= 35 + 12 * be16_at(s, 33) && nav_cmds_ok(s, be16_at(s, 33)) {
        Some(35 + 12 * be16_at(s, 33))
    } else {
        None
    }
}

pub open spec fn button_sizer() -> spec_fn(Seq<u8>) -> Option<int> {
    |s: Seq<u8>| button_size(s)
}

/// The bytes that a button group takes.
pub open spec fn bog_size(s: Seq<u8>) -> Option<int> {
    if s.len() < 3 {
        None
    } else {
        opt_add(3, list_size(s.subrange(3, s.len() as int), s[2] as nat, button_sizer()))
    }
}

pub open spec fn bog_sizer() -> spec_fn(Seq<u8>) -> Option<int> {
    |s: Seq<u8>| bog_size(s)
}

/// The bytes that a page takes: id, version, mask, in and out effects, seven bytes of
/// defaults and count, then the button groups.
pub open spec fn page_size(s: Seq<u8>) -> Option<int> {
    if s.len() < 10 {
        None
    } else {
        match effect_seq_size(s.subrange(10, s.len() as int)) {
            None => None,
            Some(x) => match effect_seq_size(s.subrange(10 + x, s.len() as int)) {
                None => None,
                Some(y) => {
                    let u = 10 + x + y;
                    if s.len() < u + 7 {
                        None
                    } else {
                        opt_add(u + 7, list_size(s.subrange(u + 7, s.len() as int), s[u + 6] as nat, bog_sizer()))
                    }
                },
            },
        }
    }
}

pub open spec fn page_sizer() -> spec_fn(Seq<u8>) -> Option<int> {
    |s: Seq<u8>| page_size(s)
}

/// Where the user time-out of an interactive composition stands: after the model byte, and
/// after the two time-outs when the stream model bit is 0.
pub open spec fn ic_header_len(s: Seq<u8>) -> int {
    if (s[0] >> 7u8) & 1 == 1 { 1 } else { 11 }
}

/// The bytes that an interactive composition takes.
pub open spec fn ic_size(s: Seq<u8>) -> Option<int> {
    if s.len() < 1 || s.len() < ic_header_len(s) + 4 {
        None
    } else {
        let h = ic_header_len(s);
        opt_add(h + 4, list_size(s.subrange(h + 4, s.len() as int), s[h + 3] as nat, page_sizer()))
    }
}

/// A command's twelve bytes are all it reads.
proof fn lemma_cmd_prefix(x: Seq<u8>)
    requires
        x.len() >= 12,
    ensures
        cmd_of_bytes(x) == cmd_of_bytes(x.subrange(0, 12)),
{
    assert(x.subrange(4, 8) =~= x.subrange(0, 12).subrange(4, 8));
    assert(x.subrange(8, 12) =~= x.subrange(0, 12).subrange(8, 12));
}

/// Composition objects shown together for a time.
#[derive(Debug)]
pub struct IgEffect {
    /// Duration in 90 kHz ticks.
    pub duration: u32,
    pub palette_id_ref: u8,
    pub composition_objects: Vec<PgCompositionObject>,
}

impl IgEffect {
    /// Reads duration, palette reference and a counted list of objects.
    pub fn parse(reader: &mut SliceReader) -> (r: Result<IgEffect, Error>)
        ensures
            no_lost_sync(r),
            item_read(*old(reader), *final(reader), effect_sizer(), r is Ok),
            r is Ok ==> {
                let s = old(reader).rest();
                let e = r->Ok_0;
                &&& e.duration == be24_at(s, 0)
                &&& e.palette_id_ref == s[3]
                &&& e.composition_objects@.len() == s[4]
            },
    {
        let ghost s = reader.rest();
        let b = reader.read(5)?;
        assert(b@ =~= s.subrange(0, 5));
        assert(reader.rest() =~= s.subrange(5, s.len() as int));
        let composition_objects = read_composition_objects(reader, b[4])?;
        assert(reader.rest() =~= s.subrange(effect_size(s)->Some_0, s.len() as int));
        Ok(IgEffect { duration: u24_at(b, 0), palette_id_ref: b[3], composition_objects })
    }
}

/// The animation shown when a page appears or disappears.
#[derive(Debug)]
pub struct IgEffectSequence {
    pub windows: Vec<PgWindow>,
    pub effects: Vec<IgEffect>,
}

impl IgEffectSequence {
    /// Reads a counted list of windows and a counted list of effects.
    pub fn parse(reader: &mut SliceReader) -> (r: Result<IgEffectSequence, Error>)
        ensures
            no_lost_sync(r),
            item_read(*old(reader), *final(reader), effect_seq_sizer(), r is Ok),
            r is Ok ==> {
                let s = old(reader).rest();
                &&& r->Ok_0.windows@.len() == s[0]
                &&& r->Ok_0.effects@.len() == s[1 + 9 * s[0]]
            },
    {
        let ghost s = reader.rest();
        let num_windows = reader.read_u8()?;
        assert(reader.rest() =~= s.subrange(1, s.len() as int));
        proof {
            lemma_windows_size(s.subrange(1, s.len() as int), num_windows as nat);
        }
        let windows = read_windows(reader, num_windows)?;
        let ghost e = 1 + 9 * num_windows;
        assert(reader.rest() =~= s.subrange(e, s.len() as int));
        let num_effects = reader.read_u8()?;
        assert(reader.rest() =~= s.subrange(e + 1, s.len() as int));
        let ghost full = reader.rest();
        let ghost start = *reader;
        let ghost mut used: int = 0;
        let n_items = num_effects;
        let mut effects: Vec<IgEffect> = Vec::new();
        let mut i: u16 = 0;
        assert(full.subrange(0, full.len() as int) =~= full);
        while i < n_items as u16
            invariant
                effects@.len() == i,
                i <= n_items,
                full == start.rest(),
                0 <= used <= full.len(),
                SliceReader::advanced(start, *reader, used),
                list_size(full, n_items as nat, effect_sizer()) == opt_add(used, list_size(reader.rest(), (n_items - i) as nat, effect_sizer())),
                s == old(reader).rest(),
                e == 1 + 9 * s[0],
                s.len() >= e + 1,
                n_items == s[e],
                full == s.subrange(e + 1, s.len() as int),
            decreases n_items - i,
        {
            let ghost before = reader.rest();
            match IgEffect::parse(reader) {
                Ok(x) => {
                    effects.push(x);
                },
                Err(e) => {
                    return Err(e);
                },
            }
            proof {
                let k = (effect_sizer())(before)->Some_0;
                assert(reader.rest() =~= full.subrange(used + k, full.len() as int));
                used = used + k;
            }
            i = i + 1;
        }
        assert(list_size(full, n_items as nat, effect_sizer()) == Some(used));
        assert(reader.rest() =~= s.subrange(effect_seq_size(s)->Some_0, s.len() as int));
        Ok(IgEffectSequence { windows, effects })
    }
}

/// `n` windows take `9 * n` bytes, where they are there.
proof fn lemma_windows_size(s: Seq<u8>, n: nat)
    ensures
        list_size(s, n, window_sizer()) == (if s.len() >= 9 * n { Some(9 * n as int) } else { None::<int> }),
    decreases n,
{
    if n > 0 {
        if s.len() >= 9 {
            lemma_windows_size(s.subrange(9, s.len() as int), (n - 1) as nat);
        }
    }
}

/// An interactive button.
#[derive(Debug)]
pub struct IgButton {
    pub id: u16,
    pub numeric_select_value: u16,
    pub auto_action_flag: bool,
    pub x_pos: u16,
    pub y_pos: u16,
    pub upper_button_id_ref: u16,
    pub lower_button_id_ref: u16,
    pub left_button_id_ref: u16,
    pub right_button_id_ref: u16,
    pub normal_start_object_id_ref: u16,
    pub normal_end_object_id_ref: u16,
    pub normal_repeat_flag: bool,
    pub selected_sound_id_ref: u8,
    pub selected_start_object_id_ref: u16,
    pub selected_end_object_id_ref: u16,
    pub selected_repeat_flag: bool,
    pub activated_sound_id_ref: u8,
    pub activated_start_object_id_ref: u16,
    pub activated_end_object_id_ref: u16,
    /// Commands run when the button is activated.
    pub nav_cmds: Vec<MObjCmd>,
}

impl IgButton {
    /// Reads the 35 fixed bytes of a button and its counted list of 12-byte commands.
    pub fn parse(reader: &mut SliceReader) -> (r: Result<IgButton, Error>)
        ensures
            no_lost_sync(r),
            item_read(*old(reader), *final(reader), button_sizer(), r is Ok),
            r is Ok ==> {
                let s = old(reader).rest();
                let b = r->Ok_0;
                &&& b.id == be16_at(s, 0)
                &&& b.numeric_select_value == be16_at(s, 2)
                &&& b.auto_action_flag == ((s[4] >> 7u8) & 1 == 1)
                &&& b.x_pos == be16_at(s, 5)
                &&& b.y_pos == be16_at(s, 7)
                &&& b.upper_button_id_ref == be16_at(s, 9)
                &&& b.lower_button_id_ref == be16_at(s, 11)
                &&& b.left_button_id_ref == be16_at(s, 13)
                &&& b.right_button_id_ref == be16_at(s, 15)
                &&& b.normal_start_object_id_ref == be16_at(s, 17)
                &&& b.normal_end_object_id_ref == be16_at(s, 19)
                &&& b.normal_repeat_flag == ((s[21] >> 7u8) & 1 == 1)
                &&& b.selected_sound_id_ref == s[22]
                &&& b.selected_start_object_id_ref == be16_at(s, 23)
                &&& b.selected_end_object_id_ref == be16_at(s, 25)
                &&& b.selected_repeat_flag == ((s[27] >> 7u8) & 1 == 1)
                &&& b.activated_sound_id_ref == s[28]
                &&& b.activated_start_object_id_ref == be16_at(s, 29)
                &&& b.activated_end_object_id_ref == be16_at(s, 31)
                &&& b.nav_cmds@.len() == be16_at(s, 33)
                &&& forall|k: int| 0 <= k < be16_at(s, 33) ==> b.nav_cmds@[k] == cmd_of_bytes(
                    s.subrange(35 + 12 * k, 47 + 12 * k),
                )
            },
    {
        let ghost s = reader.rest();
        let b = reader.read(35)?;
        assert(b@ =~= s.subrange(0, 35));
        let num_nav_cmds = u16_at(b, 33);
        let mut nav_cmds: Vec<MObjCmd> = Vec::new();
        let mut i: u16 = 0;
        assert(reader.rest() =~= s.subrange(35, s.len() as int));
        while i < num_nav_cmds
            invariant
                i <= num_nav_cmds,
                num_nav_cmds == be16_at(s, 33),
                s == old(reader).rest(),
                s.len() >= 35 + 12 * i,
                nav_cmds@.len() == i,
                reader.rest() == s.subrange(35 + 12 * i, s.len() as int),
                reader.pos() == old(reader).pos() + 35 + 12 * i,
                nav_cmds_ok(s, i as int),
                forall|k: int| 0 <= k < i ==> nav_cmds@[k] == cmd_of_bytes(s.subrange(35 + 12 * k, 47 + 12 * k)),
            decreases num_nav_cmds - i,
        {
            let ghost before = reader.rest();
            proof {
                if before.len() >= 12 {
                    lemma_cmd_prefix(before);
                    assert(before.subrange(0, 12) =~= s.subrange(35 + 12 * i, 47 + 12 * i));
                }
            }
            let c = match MObjCmd::parse(reader) {
                Ok(c) => c,
                Err(e) => {
                    proof {
                        if before.len() >= 12 {
                            assert(!nav_cmds_ok(s, be16_at(s, 33)));
                        }
                    }
                    return Err(e);
                },
            };
            nav_cmds.push(c);
            i = i + 1;
            assert(reader.rest() =~= s.subrange(35 + 12 * i, s.len() as int));
        }
        Ok(IgButton {
            id: u16_at(b, 0),
            numeric_select_value: u16_at(b, 2),
            auto_action_flag: (b[4] >> 7u8) & 1 == 1,
            x_pos: u16_at(b, 5),
            y_pos: u16_at(b, 7),
            upper_button_id_ref: u16_at(b, 9),
            lower_button_id_ref: u16_at(b, 11),
            left_button_id_ref: u16_at(b, 13),
            right_button_id_ref: u16_at(b, 15),
            normal_start_object_id_ref: u16_at(b, 17),
            normal_end_object_id_ref: u16_at(b, 19),
            normal_repeat_flag: (b[21] >> 7u8) & 1 == 1,
            selected_sound_id_ref: b[22],
            selected_start_object_id_ref: u16_at(b, 23),
            selected_end_object_id_ref: u16_at(b, 25),
            selected_repeat_flag: (b[27] >> 7u8) & 1 == 1,
            activated_sound_id_ref: b[28],
            activated_start_object_id_ref: u16_at(b, 29),
            activated_end_object_id_ref: u16_at(b, 31),
            nav_cmds,
        })
    }
}

/// A button overlap group: buttons of which one is shown at a time.
#[derive(Debug)]
pub struct IgBog {
    pub default_valid_button_id_ref: u16,
    pub buttons: Vec<IgButton>,
}

impl IgBog {
    /// Reads the default button and a counted list of buttons.
    pub fn parse(reader: &mut SliceReader) -> (r: Result<IgBog, Error>)
        ensures
            no_lost_sync(r),
            item_read(*old(reader), *final(reader), bog_sizer(), r is Ok),
            r is Ok ==> {
                let s = old(reader).rest();
                &&& r->Ok_0.default_valid_button_id_ref == be16_at(s, 0)
                &&& r->Ok_0.buttons@.len() == s[2]
            },
    {
        let ghost s = reader.rest();
        let b = reader.read(3)?;
        assert(b@ =~= s.subrange(0, 3));
        assert(reader.rest() =~= s.subrange(3, s.len() as int));
        let ghost full = reader.rest();
        let ghost start = *reader;
        let ghost mut used: int = 0;
        let n_items = b[2];
        let mut buttons: Vec<IgButton> = Vec::new();
        let mut i: u16 = 0;
        assert(full.subrange(0, full.len() as int) =~= full);
        while i < n_items as u16
            invariant
                buttons@.len() == i,
                i <= n_items,
                full == start.rest(),
                0 <= used <= full.len(),
                SliceReader::advanced(start, *reader, used),
                list_size(full, n_items as nat, button_sizer()) == opt_add(used, list_size(reader.rest(), (n_items - i) as nat, button_sizer())),
                s == old(reader).rest(),
                s.len() >= 3,
                n_items == s[2],
                full == s.subrange(3, s.len() as int),
            decreases n_items - i,
        {
            let ghost before = reader.rest();
            match IgButton::parse(reader) {
                Ok(x) => {
                    buttons.push(x);
                },
                Err(e) => {
                    return Err(e);
                },
            }
            proof {
                let k = (button_sizer())(before)->Some_0;
                assert(reader.rest() =~= full.subrange(used + k, full.len() as int));
                used = used + k;
            }
            i = i + 1;
        }
        assert(list_size(full, n_items as nat, button_sizer()) == Some(used));
        assert(reader.rest() =~= s.subrange(bog_size(s)->Some_0, s.len() as int));
        Ok(IgBog { default_valid_button_id_ref: u16_at(b, 0), buttons })
    }
}

/// A menu page.
#[derive(Debug)]
pub struct IgPage {
    pub id: u8,
    pub version: u8,
    pub uo_mask: UoMask,
    pub in_effects: IgEffectSequence,
    pub out_effects: IgEffectSequence,
    pub animation_frame_rate_code: u8,
    pub default_selected_button_id_ref: u16,
    pub default_activated_button_id_ref: u16,
    pub palette_id_ref: u8,
    pub bogs: Vec<IgBog>,
}

impl IgPage {
    /// Reads id, version, the operation mask, the in and out effects, the defaults and a
    /// counted list of button groups.
    pub fn parse(reader: &mut SliceReader) -> (r: Result<IgPage, Error>)
        ensures
            no_lost_sync(r),
            item_read(*old(reader), *final(reader), page_sizer(), r is Ok),
            r is Ok ==> {
                let s = old(reader).rest();
                &&& r->Ok_0.id == s[0]
                &&& r->Ok_0.version == s[1]
            },
    {
        let ghost s = reader.rest();
        let id = reader.read_u8()?;
        let version = reader.read_u8()?;
        let bits = read_u64(reader)?;
        assert(reader.rest() =~= s.subrange(10, s.len() as int));
        let in_effects = IgEffectSequence::parse(reader)?;
        let ghost x = effect_seq_size(s.subrange(10, s.len() as int))->Some_0;
        assert(reader.rest() =~= s.subrange(10 + x, s.len() as int));
        let out_effects = IgEffectSequence::parse(reader)?;
        let ghost y = effect_seq_size(s.subrange(10 + x, s.len() as int))->Some_0;
        let ghost u = 10 + x + y;
        assert(reader.rest() =~= s.subrange(u, s.len() as int));
        let b = reader.read(7)?;
        assert(b@ =~= s.subrange(u, u + 7));
        assert(reader.rest() =~= s.subrange(u + 7, s.len() as int));
        let ghost full = reader.rest();
        let ghost start = *reader;
        let ghost mut used: int = 0;
        let n_items = b[6];
        let mut bogs: Vec<IgBog> = Vec::new();
        let mut i: u16 = 0;
        assert(full.subrange(0, full.len() as int) =~= full);
        while i < n_items as u16
            invariant
                bogs@.len() == i,
                i <= n_items,
                full == start.rest(),
                0 <= used <= full.len(),
                SliceReader::advanced(start, *reader, used),
                list_size(full, n_items as nat, bog_sizer()) == opt_add(used, list_size(reader.rest(), (n_items - i) as nat, bog_sizer())),
                s == old(reader).rest(),
                effect_seq_size(s.subrange(10, s.len() as int)) == Some(x),
                effect_seq_size(s.subrange(10 + x, s.len() as int)) == Some(y),
                u == 10 + x + y,
                s.len() >= u + 7,
                n_items == s[u + 6],
                full == s.subrange(u + 7, s.len() as int),
            decreases n_items - i,
        {
            let ghost before = reader.rest();
            match IgBog::parse(reader) {
                Ok(x) => {
                    bogs.push(x);
                },
                Err(e) => {
                    return Err(e);
                },
            }
            proof {
                let k = (bog_sizer())(before)->Some_0;
                assert(reader.rest() =~= full.subrange(used + k, full.len() as int));
                used = used + k;
            }
            i = i + 1;
        }
        assert(list_size(full, n_items as nat, bog_sizer()) == Some(used));
        assert(reader.rest() =~= s.subrange(page_size(s)->Some_0, s.len() as int));
        Ok(IgPage {
            id,
            version,
            uo_mask: UoMask { bits },
            in_effects,
            out_effects,
            animation_frame_rate_code: b[0],
            default_selected_button_id_ref: u16_at(b, 1),
            default_activated_button_id_ref: u16_at(b, 3),
            palette_id_ref: b[5],
            bogs,
        })
    }
}

/// Whether a menu is always shown or pops up.
#[derive(Debug, Clone, Copy, PartialEq, Eq, Structural)]
pub enum IgUiModel {
    AlwaysOn,
    Popup,
}

/// The pages of an interactive composition.
#[derive(Debug)]
pub struct IgInteractiveComposition {
    /// Multiplexed with the stream (1) or preloaded (0).
    pub stream_model: bool,
    pub ui_model: IgUiModel,
    /// Present when the stream model bit is 0.
    pub composition_timeout_pts: Option<u64>,
    /// Present when the stream model bit is 0.
    pub selection_timeout_pts: Option<u64>,
    /// Inactivity time before a popup hides, in 90 kHz ticks.
    pub user_timeout_duration: u32,
    pub pages: Vec<IgPage>,
}

impl IgInteractiveComposition {
    /// Reads the model byte, the two time-outs when the stream model bit is 0, the user
    /// time-out and a counted list of pages.
    pub fn parse(reader: &mut SliceReader) -> (r: Result<IgInteractiveComposition, Error>)
        ensures
            no_lost_sync(r),
            r is Ok <==> ic_size(old(reader).rest()) is Some,
            r is Ok ==> SliceReader::advanced(*old(reader), *final(reader), ic_size(old(reader).rest())->Some_0),
            r is Ok ==> {
                let s = old(reader).rest();
                let c = r->Ok_0;
                let h = ic_header_len(s);
                &&& c.stream_model == ((s[0] >> 7u8) & 1 == 1)
                &&& c.ui_model == (if (s[0] >> 6u8) & 1 == 1 { IgUiModel::Popup } else { IgUiModel::AlwaysOn })
                &&& c.composition_timeout_pts == (if c.stream_model { None } else { Some(be33(s.subrange(1, 6)) as u64) })
                &&& c.selection_timeout_pts == (if c.stream_model { None } else { Some(be33(s.subrange(6, 11)) as u64) })
                &&& c.user_timeout_duration == be24_at(s, h)
                &&& c.pages@.len() == s[h + 3]
            },
    {
        let ghost s = reader.rest();
        let model_bits = reader.read_u8()?;
        let stream_model = (model_bits >> 7u8) & 1 == 1;
        assert(reader.rest() =~= s.subrange(1, s.len() as int));
        let (composition_timeout_pts, selection_timeout_pts) = if !stream_model {
            let c = reader.read_be_u33()?;
            assert(s.subrange(1, s.len() as int).subrange(0, 5) =~= s.subrange(1, 6));
            assert(be33(s.subrange(1, s.len() as int)) == be33(s.subrange(1, 6))) by {
                assert(s.subrange(1, s.len() as int).subrange(1, 5) =~= s.subrange(1, 6).subrange(1, 5));
            }
            assert(reader.rest() =~= s.subrange(6, s.len() as int));
            let t = reader.read_be_u33()?;
            assert(be33(s.subrange(6, s.len() as int)) == be33(s.subrange(6, 11))) by {
                assert(s.subrange(6, s.len() as int).subrange(1, 5) =~= s.subrange(6, 11).subrange(1, 5));
            }
            (Some(c), Some(t))
        } else {
            (None, None)
        };
        let ghost h = ic_header_len(s);
        assert(reader.rest() =~= s.subrange(h, s.len() as int));
        let user_timeout_duration = reader.read_be_u24()?;
        let n = reader.read_u8()?;
        assert(reader.rest() =~= s.subrange(h + 4, s.len() as int));
        let ghost full = reader.rest();
        let ghost start = *reader;
        let ghost mut used: int = 0;
        let n_items = n;
        let mut pages: Vec<IgPage> = Vec::new();
        let mut i: u16 = 0;
        assert(full.subrange(0, full.len() as int) =~= full);
        while i < n_items as u16
            invariant
                pages@.len() == i,
                i <= n_items,
                full == start.rest(),
                0 <= used <= full.len(),
                SliceReader::advanced(start, *reader, used),
                list_size(full, n_items as nat, page_sizer()) == opt_add(used, list_size(reader.rest(), (n_items - i) as nat, page_sizer())),
                s == old(reader).rest(),
                h == ic_header_len(s),
                s.len() >= 1,
                s.len() >= h + 4,
                n_items == s[h + 3],
                full == s.subrange(h + 4, s.len() as int),
            decreases n_items - i,
        {
            let ghost before = reader.rest();
            match IgPage::parse(reader) {
                Ok(x) => {
                    pages.push(x);
                },
                Err(e) => {
                    return Err(e);
                },
            }
            proof {
                let k = (page_sizer())(before)->Some_0;
                assert(reader.rest() =~= full.subrange(used + k, full.len() as int));
                used = used + k;
            }
            i = i + 1;
        }
        assert(list_size(full, n_items as nat, page_sizer()) == Some(used));
        assert(reader.rest() =~= s.subrange(ic_size(s)->Some_0, s.len() as int));
        Ok(IgInteractiveComposition {
            stream_model,
            ui_model: if (model_bits >> 6u8) & 1 == 1 { IgUiModel::Popup } else { IgUiModel::AlwaysOn },
            composition_timeout_pts,
            selection_timeout_pts,
            user_timeout_duration,
            pages,
        })
    }
}

/// An interactive graphics composition, possibly one fragment of it.
#[derive(Debug)]
pub struct PgsIgComposition {
    pub video_descriptor: PgVideoDescriptor,
    pub composition_descriptor: PgCompositionDescriptor,
    pub sequence_descriptor: PgSequenceDescriptor,
    /// The pages, once the last fragment has arrived.
    pub interactive_composition: Option<IgInteractiveComposition>,
}

/// Whether the nine header bytes of an interactive composition segment decode.
pub open spec fn ig_header_ok(s: Seq<u8>) -> bool {
    s.len() >= 9 && frame_rate_of(s[4] >> 4u8) is Some && unit_state_of(s[7] >> 6u8) is Some
}

/// Whether an interactive composition segment body decodes, given the pending fragments.
pub open spec fn ig_composition_ok(s: Seq<u8>, old_map: Map<u32, FragmentBuffer>) -> bool {
    let key = composition_key(ig_descriptor_of(s));
    let first = (s[8] >> 7u8) & 1 == 1;
    let last = (s[8] >> 6u8) & 1 == 1;
    let buf = fill(old_map[key].data@, s.subrange(9, s.len() as int), old_map[key].capacity as int);
    ig_header_ok(s) && (first && last ==> s.len() >= 12 && ic_size(s.subrange(12, s.len() as int)) is Some)
        && (first && !last ==> s.len() >= 12) && (!first ==> old_map.contains_key(key)) && (!first && last
        ==> ic_size(buf) is Some)
}

/// The composition descriptor in the header of an interactive composition segment.
pub open spec fn ig_descriptor_of(s: Seq<u8>) -> PgCompositionDescriptor {
    PgCompositionDescriptor { number: be16_at(s, 5) as u16, state: unit_state_of(s[7] >> 6u8)->Some_0 }
}

impl PgsIgComposition {
    /// Reads an interactive composition segment. A whole one is decoded at once; fragments
    /// are collected under the composition descriptor as for objects.
    pub fn parse(reader: &mut SliceReader, storage: &mut BdavParserStorage) -> (r: Result<PgsIgComposition, Error>)
        requires
            old(storage).wf(),
        ensures
            no_lost_sync(r),
            final(storage).wf(),
            final(storage).pending(FragmentKind::Object) == old(storage).pending(FragmentKind::Object),
            ({
                let s = old(reader).rest();
                let key = composition_key(ig_descriptor_of(s));
                let first = (s[8] >> 7u8) & 1 == 1;
                let last = (s[8] >> 6u8) & 1 == 1;
                let old_map = old(storage).pending(FragmentKind::IgComposition);
                let new_map = final(storage).pending(FragmentKind::IgComposition);
                let buf = fill(old_map[key].data@, s.subrange(9, s.len() as int), old_map[key].capacity as int);
                &&& r is Ok <==> ig_composition_ok(s, old_map)
                &&& ig_header_ok(s) && !first && !old_map.contains_key(key) ==> r is Err
                    && r->Err_0.details == ErrorDetails::AppError(BdavErrorDetails::NonStartedPgsIgComposition)
                &&& r is Ok ==> {
                    let c = r->Ok_0;
                    &&& c.video_descriptor == (PgVideoDescriptor {
                        video_width: be16_at(s, 0) as u16,
                        video_height: be16_at(s, 2) as u16,
                        frame_rate: frame_rate_of(s[4] >> 4u8)->Some_0,
                    })
                    &&& c.composition_descriptor == ig_descriptor_of(s)
                    &&& c.sequence_descriptor == (PgSequenceDescriptor { first_in_seq: first, last_in_seq: last })
                    &&& (c.interactive_composition is Some <==> last)
                    &&& first && !last ==> new_map == old_map.insert(key, new_map[key])
                        && new_map[key].capacity == be24_at(s, 9)
                        && new_map[key].data@ == fill(Seq::empty(), s.subrange(12, s.len() as int), be24_at(s, 9))
                    &&& !first && !last ==> new_map == old_map.insert(key, new_map[key])
                        && new_map[key].capacity == old_map[key].capacity && new_map[key].data@ == buf
                    &&& !first && last ==> new_map == old_map.remove(key)
                    &&& first && last ==> new_map == old_map
                }
                &&& r is Err && !(ig_header_ok(s) && !first && last) ==> new_map == old_map
                &&& r is Err && ig_header_ok(s) && !first && last ==> new_map == old_map.remove(key)
            }),
    {
        let ghost s = reader.rest();
        let video_descriptor = PgVideoDescriptor::parse(reader)?;
        assert(reader.rest() =~= s.subrange(5, s.len() as int));
        let composition_descriptor = PgCompositionDescriptor::parse(reader)?;
        assert(be16_at(s.subrange(5, s.len() as int), 0) == be16_at(s, 5));
        assert(reader.rest() =~= s.subrange(8, s.len() as int));
        let sequence_descriptor = PgSequenceDescriptor::parse(reader)?;
        assert(reader.rest() =~= s.subrange(9, s.len() as int));
        let key = composition_descriptor.key();
        if sequence_descriptor.first_in_seq && sequence_descriptor.last_in_seq {
            let _length = reader.read_be_u24()?;
            assert(reader.rest() =~= s.subrange(12, s.len() as int));
            let ic = IgInteractiveComposition::parse(reader)?;
            Ok(PgsIgComposition { video_descriptor, composition_descriptor, sequence_descriptor, interactive_composition: Some(ic) })
        } else if sequence_descriptor.first_in_seq {
            let length = reader.read_be_u24()?;
            assert(reader.rest() =~= s.subrange(12, s.len() as int));
            let rest = reader.read_to_end()?;
            storage.start_fragments(FragmentKind::IgComposition, key, length as usize, rest);
            Ok(PgsIgComposition { video_descriptor, composition_descriptor, sequence_descriptor, interactive_composition: None })
        } else if !sequence_descriptor.last_in_seq {
            let rest = reader.read_to_end()?;
            if storage.continue_fragments(FragmentKind::IgComposition, key, rest) {
                Ok(PgsIgComposition { video_descriptor, composition_descriptor, sequence_descriptor, interactive_composition: None })
            } else {
                Err(reader.make_error(ErrorDetails::AppError(BdavErrorDetails::NonStartedPgsIgComposition)))
            }
        } else {
            let rest = reader.read_to_end()?;
            match storage.finish_fragments(FragmentKind::IgComposition, key, rest) {
                Some(full) => {
                    let mut fr = SliceReader::new(full.as_slice());
                    let ic = IgInteractiveComposition::parse(&mut fr)?;
                    Ok(PgsIgComposition { video_descriptor, composition_descriptor, sequence_descriptor, interactive_composition: Some(ic) })
                },
                None => Err(reader.make_error(ErrorDetails::AppError(BdavErrorDetails::NonStartedPgsIgComposition))),
            }
        }
    }
}

/// Marks the end of a display set.
#[derive(Debug, Clone, Copy, PartialEq, Eq, Structural)]
pub struct PgsEndOfDisplay {}

/// Direction of text. Codes 1 to 3.
#[derive(Debug, Clone, Copy, PartialEq, Eq, Structural)]
pub enum TgTextFlow {
    /// Left to right, top to bottom.
    LeftRight,
    /// Right to left, top to bottom.
    RightLeft,
    /// Top to bottom, right to left.
    TopBottom,
}

pub open spec fn tg_text_flow_of(v: u8) -> Option<TgTextFlow> {
    if v == 1 { Some(TgTextFlow::LeftRight) } else if v == 2 { Some(TgTextFlow::RightLeft) } else if v == 3 { Some(TgTextFlow::TopBottom) } else { None }
}

/// Horizontal alignment of text. Codes 1 to 3.
#[derive(Debug, Clone, Copy, PartialEq, Eq, Structural)]
pub enum TgHAlign {
    Left,
    Center,
    Right,
}

pub open spec fn tg_h_align_of(v: u8) -> Option<TgHAlign> {
    if v == 1 { Some(TgHAlign::Left) } else if v == 2 { Some(TgHAlign::Center) } else if v == 3 { Some(TgHAlign::Right) } else { None }
}

/// Vertical alignment of text. Codes 1 to 3.
#[derive(Debug, Clone, Copy, PartialEq, Eq, Structural)]
pub enum TgVAlign {
    Top,
    Middle,
    Bottom,
}

pub open spec fn tg_v_align_of(v: u8) -> Option<TgVAlign> {
    if v == 1 { Some(TgVAlign::Top) } else if v == 2 { Some(TgVAlign::Middle) } else if v == 3 { Some(TgVAlign::Bottom) } else { None }
}

/// Thickness of the text outline. Codes 1 to 3.
#[derive(Debug, Clone, Copy, PartialEq, Eq, Structural)]
pub enum TgOutlineThickness {
    Thin,
    Medium,
    Thick,
}

pub open spec fn tg_outline_thickness_of(v: u8) -> Option<TgOutlineThickness> {
    if v == 1 { Some(TgOutlineThickness::Thin) } else if v == 2 { Some(TgOutlineThickness::Medium) } else if v == 3 { Some(TgOutlineThickness::Thick) } else { None }
}

/// A rectangle filled with a background colour.
#[derive(Debug, Clone, Copy, PartialEq, Eq, Structural)]
pub struct TgRegionInfo {
    pub region: TgRect,
    /// Palette index of the background.
    pub background_color: u8,
}

impl TgRegionInfo {
    /// Reads the rectangle, the colour, and one reserved byte.
    pub fn parse(reader: &mut SliceReader) -> (r: Result<TgRegionInfo, Error>)
        ensures
            no_lost_sync(r),
            fixed_read(*old(reader), *final(reader), 10, r is Ok),
            r is Ok ==> r->Ok_0 == (TgRegionInfo {
                region: tg_rect_of(old(reader).rest()),
                background_color: old(reader).rest()[8],
            }),
    {
        let ghost s = reader.rest();
        let b = reader.read(10)?;
        assert(b@ =~= s.subrange(0, 10));
        let region = TgRect {
            xpos: u16_at(b, 0),
            ypos: u16_at(b, 2),
            width: u16_at(b, 4),
            height: u16_at(b, 6),
        };
        Ok(TgRegionInfo { region, background_color: b[8] })
    }
}

/// Font style bits: bold, italic and outline in the three low bits.
#[derive(Debug, Clone, Copy, PartialEq, Eq, Structural)]
pub struct TgFontStyle {
    pub bold: bool,
    pub italic: bool,
    pub outline_border: bool,
}

/// The style a region of text uses.
#[derive(Debug)]
pub struct TgRegionStyle {
    pub region_style_id: u8,
    pub region_info: TgRegionInfo,
    pub text_box: TgRect,
    pub text_flow: TgTextFlow,
    pub text_halign: TgHAlign,
    pub text_valign: TgVAlign,
    pub line_space: u8,
    pub font_id_ref: u8,
    pub font_style: TgFontStyle,
    pub font_size: u8,
    pub font_color: u8,
    pub outline_color: u8,
    pub outline_thickness: TgOutlineThickness,
}

fn tg_text_flow_from(v: u8) -> (r: Option<TgTextFlow>)
    ensures
        r == tg_text_flow_of(v),
{
    if v == 1 { Some(TgTextFlow::LeftRight) } else if v == 2 { Some(TgTextFlow::RightLeft) } else if v == 3 { Some(TgTextFlow::TopBottom) } else { None }
}

fn tg_h_align_from(v: u8) -> (r: Option<TgHAlign>)
    ensures
        r == tg_h_align_of(v),
{
    if v == 1 { Some(TgHAlign::Left) } else if v == 2 { Some(TgHAlign::Center) } else if v == 3 { Some(TgHAlign::Right) } else { None }
}

fn tg_v_align_from(v: u8) -> (r: Option<TgVAlign>)
    ensures
        r == tg_v_align_of(v),
{
    if v == 1 { Some(TgVAlign::Top) } else if v == 2 { Some(TgVAlign::Middle) } else if v == 3 { Some(TgVAlign::Bottom) } else { None }
}

fn tg_outline_thickness_from(v: u8) -> (r: Option<TgOutlineThickness>)
    ensures
        r == tg_outline_thickness_of(v),
{
    if v == 1 { Some(TgOutlineThickness::Thin) } else if v == 2 { Some(TgOutlineThickness::Medium) } else if v == 3 { Some(TgOutlineThickness::Thick) } else { None }
}

/// Whether a region style decodes from `s`: 29 bytes with known text flow, alignments and
/// outline thickness.
pub open spec fn region_style_ok(s: Seq<u8>) -> bool {
    &&& s.len() >= 29
    &&& tg_text_flow_of(s[19]) is Some
    &&& tg_h_align_of(s[20]) is Some
    &&& tg_v_align_of(s[21]) is Some
    &&& tg_outline_thickness_of(s[28]) is Some
}

pub open spec fn region_style_sizer() -> spec_fn(Seq<u8>) -> Option<int> {
    |s: Seq<u8>| if region_style_ok(s) { Some(29int) } else { None }
}

impl TgRegionStyle {
    /// Reads a region style: id, background region and colour, text box, flow, alignments,
    /// line space, font, style bits, size, colours and outline thickness.
    pub fn parse(reader: &mut SliceReader) -> (r: Result<TgRegionStyle, Error>)
        ensures
            no_lost_sync(r),
            item_read(*old(reader), *final(reader), region_style_sizer(), r is Ok),
            r is Ok ==> {
                let s = old(reader).rest();
                let t = r->Ok_0;
                &&& t.region_style_id == s[0]
                &&& t.region_info == (TgRegionInfo { region: tg_rect_of(s.subrange(1, 9)), background_color: s[9] })
                &&& t.text_box == tg_rect_of(s.subrange(11, 19))
                &&& t.text_flow == tg_text_flow_of(s[19])->Some_0
                &&& t.text_halign == tg_h_align_of(s[20])->Some_0
                &&& t.text_valign == tg_v_align_of(s[21])->Some_0
                &&& t.line_space == s[22]
                &&& t.font_id_ref == s[23]
                &&& t.font_style == (TgFontStyle {
                    bold: (s[24] >> 2u8) & 1 == 1,
                    italic: (s[24] >> 1u8) & 1 == 1,
                    outline_border: s[24] & 1 == 1,
                })
                &&& t.font_size == s[25]
                &&& t.font_color == s[26]
                &&& t.outline_color == s[27]
                &&& t.outline_thickness == tg_outline_thickness_of(s[28])->Some_0
            },
    {
        let ghost s = reader.rest();
        let b = reader.read(29)?;
        assert(b@ =~= s.subrange(0, 29));
        let text_flow = match tg_text_flow_from(b[19]) {
            Some(v) => v,
            None => {
                return Err(reader.make_error(ErrorDetails::AppError(BdavErrorDetails::UnknownTgTextFlow(b[19]))));
            },
        };
        let text_halign = match tg_h_align_from(b[20]) {
            Some(v) => v,
            None => {
                return Err(reader.make_error(ErrorDetails::AppError(BdavErrorDetails::UnknownTgHAlign(b[20]))));
            },
        };
        let text_valign = match tg_v_align_from(b[21]) {
            Some(v) => v,
            None => {
                return Err(reader.make_error(ErrorDetails::AppError(BdavErrorDetails::UnknownTgVAlign(b[21]))));
            },
        };
        let outline_thickness = match tg_outline_thickness_from(b[28]) {
            Some(v) => v,
            None => {
                return Err(reader.make_error(ErrorDetails::AppError(BdavErrorDetails::UnknownTgOutlineThickness(b[28]))));
            },
        };
        let region = TgRect { xpos: u16_at(b, 1), ypos: u16_at(b, 3), width: u16_at(b, 5), height: u16_at(b, 7) };
        let text_box = TgRect { xpos: u16_at(b, 11), ypos: u16_at(b, 13), width: u16_at(b, 15), height: u16_at(b, 17) };
        assert(region == tg_rect_of(s.subrange(1, 9)));
        assert(text_box == tg_rect_of(s.subrange(11, 19)));
        Ok(TgRegionStyle {
            region_style_id: b[0],
            region_info: TgRegionInfo { region, background_color: b[9] },
            text_box,
            text_flow,
            text_halign,
            text_valign,
            line_space: b[22],
            font_id_ref: b[23],
            font_style: TgFontStyle {
                bold: (b[24] >> 2u8) & 1 == 1,
                italic: (b[24] >> 1u8) & 1 == 1,
                outline_border: b[24] & 1 == 1,
            },
            font_size: b[25],
            font_color: b[26],
            outline_color: b[27],
            outline_thickness,
        })
    }
}

/// The value of a 16-bit sign-magnitude field: sign in bit 15, magnitude below.
pub open spec fn sm16_value(v: u16) -> int {
    if v >= 0x8000 {
        -((v - 0x8000) as int)
    } else {
        v as int
    }
}

/// The value of an 8-bit sign-magnitude field: sign in bit 7, magnitude below.
pub open spec fn sm8_value(v: u8) -> int {
    if v >= 0x80 {
        -((v - 0x80) as int)
    } else {
        v as int
    }
}

fn sm16_at(b: &[u8], i: usize) -> (r: i16)
    requires
        i + 2 <= b@.len(),
    ensures
        r == sm16_value(be16_at(b@, i as int) as u16),
{
    let v = u16_at(b, i);
    if v >= 0x8000 {
        -((v - 0x8000) as i16)
    } else {
        v as i16
    }
}

fn sm8_of(v: u8) -> (r: i8)
    ensures
        r == sm8_value(v),
{
    if v >= 0x80 {
        -((v - 0x80) as i8)
    } else {
        v as i8
    }
}

/// Adjustments that a user style applies to a region style.
#[derive(Debug, Clone, Copy, PartialEq, Eq, Structural)]
pub struct TgUserStyle {
    pub user_style_id: u8,
    pub region_hpos_delta: i16,
    pub region_vpos_delta: i16,
    pub text_box_hpos_delta: i16,
    pub text_box_vpos_delta: i16,
    pub text_box_width_delta: i16,
    pub text_box_height_delta: i16,
    pub font_size_delta: i8,
    pub line_space_delta: i8,
}

pub open spec fn user_style_sizer() -> spec_fn(Seq<u8>) -> Option<int> {
    |s: Seq<u8>| if s.len() >= 15 { Some(15int) } else { None }
}

impl TgUserStyle {
    /// Reads the id, six 16-bit and two 8-bit sign-magnitude deltas.
    pub fn parse(reader: &mut SliceReader) -> (r: Result<TgUserStyle, Error>)
        ensures
            no_lost_sync(r),
            item_read(*old(reader), *final(reader), user_style_sizer(), r is Ok),
            r is Ok ==> {
                let s = old(reader).rest();
                let u = r->Ok_0;
                &&& u.user_style_id == s[0]
                &&& u.region_hpos_delta == sm16_value(be16_at(s, 1) as u16)
                &&& u.region_vpos_delta == sm16_value(be16_at(s, 3) as u16)
                &&& u.text_box_hpos_delta == sm16_value(be16_at(s, 5) as u16)
                &&& u.text_box_vpos_delta == sm16_value(be16_at(s, 7) as u16)
                &&& u.text_box_width_delta == sm16_value(be16_at(s, 9) as u16)
                &&& u.text_box_height_delta == sm16_value(be16_at(s, 11) as u16)
                &&& u.font_size_delta == sm8_value(s[13])
                &&& u.line_space_delta == sm8_value(s[14])
            },
    {
        let ghost s = reader.rest();
        let b = reader.read(15)?;
        assert(b@ =~= s.subrange(0, 15));
        Ok(TgUserStyle {
            user_style_id: b[0],
            region_hpos_delta: sm16_at(b, 1),
            region_vpos_delta: sm16_at(b, 3),
            text_box_hpos_delta: sm16_at(b, 5),
            text_box_vpos_delta: sm16_at(b, 7),
            text_box_width_delta: sm16_at(b, 9),
            text_box_height_delta: sm16_at(b, 11),
            font_size_delta: sm8_of(b[13]),
            line_space_delta: sm8_of(b[14]),
        })
    }
}

/// The bytes that a counted palette takes: a byte count, then five-byte records.
pub open spec fn pal_size(s: Seq<u8>) -> Option<int> {
    if s.len() >= 2 && s.len() >= 2 + 5 * (be16_at(s, 0) / 5) {
        Some(2 + 5 * (be16_at(s, 0) / 5))
    } else {
        None
    }
}

/// Reads a palette given as a byte count and `(index, Y, Cr, Cb, T)` records.
fn read_palette_entries(reader: &mut SliceReader) -> (r: Result<Vec<PgsPaletteEntry>, Error>)
    ensures
        no_lost_sync(r),
        item_read(*old(reader), *final(reader), |s: Seq<u8>| pal_size(s), r is Ok),
        r is Ok ==> r->Ok_0@.len() == 256,
{
    let ghost s = reader.rest();
    let mut entries = blank_palette();
    let count = reader.read_be_u16()?;
    let n = count / 5;
    assert(reader.rest() =~= s.subrange(2, s.len() as int));
    let mut i: u16 = 0;
    while i < n
        invariant
            i <= n,
            n == be16_at(s, 0) / 5,
            s == old(reader).rest(),
            s.len() >= 2 + 5 * i,
            entries@.len() == 256,
            reader.rest() == s.subrange(2 + 5 * i, s.len() as int),
            reader.pos() == old(reader).pos() + 2 + 5 * i,
        decreases n - i,
    {
        read_palette_entry(reader, &mut entries)?;
        i = i + 1;
        assert(reader.rest() =~= s.subrange(2 + 5 * i, s.len() as int));
    }
    Ok(entries)
}

/// Styles of a text subtitle stream.
#[derive(Debug)]
pub struct TgDialogStyle {
    pub player_style_flag: bool,
    pub region_styles: Vec<TgRegionStyle>,
    pub user_styles: Vec<TgUserStyle>,
    pub palette_entries: Vec<PgsPaletteEntry>,
}

/// The bytes that dialog styles take: flag, counted region styles, counted user styles and
/// the palette.
pub open spec fn dialog_style_size(s: Seq<u8>) -> Option<int> {
    if s.len() < 3 {
        None
    } else {
        match list_size(s.subrange(3, s.len() as int), s[2] as nat, region_style_sizer()) {
            None => None,
            Some(a) => {
                let u = 3 + a;
                if s.len() < u + 1 {
                    None
                } else {
                    match list_size(s.subrange(u + 1, s.len() as int), s[u] as nat, user_style_sizer()) {
                        None => None,
                        Some(b) => opt_add(u + 1 + b, pal_size(s.subrange(u + 1 + b, s.len() as int))),
                    }
                }
            },
        }
    }
}

impl TgDialogStyle {
    /// Reads the flag, counted region and user styles, and the palette.
    pub fn parse(reader: &mut SliceReader) -> (r: Result<TgDialogStyle, Error>)
        ensures
            no_lost_sync(r),
            item_read(*old(reader), *final(reader), |s: Seq<u8>| dialog_style_size(s), r is Ok),
            r is Ok ==> {
                let s = old(reader).rest();
                &&& r->Ok_0.player_style_flag == ((s[0] >> 7u8) & 1 == 1)
                &&& r->Ok_0.region_styles@.len() == s[2]
                &&& r->Ok_0.palette_entries@.len() == 256
            },
    {
        let ghost s = reader.rest();
        let b = reader.read(3)?;
        assert(b@ =~= s.subrange(0, 3));
        assert(reader.rest() =~= s.subrange(3, s.len() as int));
        let player_style_flag = (b[0] >> 7u8) & 1 == 1;
        let ghost full = reader.rest();
        let ghost start = *reader;
        let ghost mut used: int = 0;
        let n_items = b[2];
        let mut region_styles: Vec<TgRegionStyle> = Vec::new();
        let mut i: u16 = 0;
        assert(full.subrange(0, full.len() as int) =~= full);
        while i < n_items as u16
            invariant
                region_styles@.len() == i,
                i <= n_items,
                full == start.rest(),
                0 <= used <= full.len(),
                SliceReader::advanced(start, *reader, used),
                list_size(full, n_items as nat, region_style_sizer()) == opt_add(used, list_size(reader.rest(), (n_items - i) as nat, region_style_sizer())),
                s == old(reader).rest(),
                s.len() >= 3,
                n_items == s[2],
                full == s.subrange(3, s.len() as int),
            decreases n_items - i,
        {
            let ghost before = reader.rest();
            match TgRegionStyle::parse(reader) {
                Ok(x) => {
                    region_styles.push(x);
                },
                Err(e) => {
                    return Err(e);
                },
            }
            proof {
                let k = (region_style_sizer())(before)->Some_0;
                assert(reader.rest() =~= full.subrange(used + k, full.len() as int));
                used = used + k;
            }
            i = i + 1;
        }
        assert(list_size(full, n_items as nat, region_style_sizer()) == Some(used));
        let ghost u = 3 + used;
        assert(reader.rest() =~= s.subrange(u, s.len() as int));
        let num_user = reader.read_u8()?;
        assert(reader.rest() =~= s.subrange(u + 1, s.len() as int));
        let ghost s = s;
        let ghost u = u;
        let user_styles = {
            let ghost full = reader.rest();
            let ghost start = *reader;
            let ghost mut used: int = 0;
            let n_items = num_user;
            let mut user_styles: Vec<TgUserStyle> = Vec::new();
            let mut i: u16 = 0;
            assert(full.subrange(0, full.len() as int) =~= full);
            while i < n_items as u16
                invariant
                    user_styles@.len() == i,
                    i <= n_items,
                    full == start.rest(),
                    0 <= used <= full.len(),
                    SliceReader::advanced(start, *reader, used),
                    list_size(full, n_items as nat, user_style_sizer()) == opt_add(used, list_size(reader.rest(), (n_items - i) as nat, user_style_sizer())),
                    s == old(reader).rest(),
                s.len() >= u + 1,
                n_items == s[u],
                u == 3 + list_size(s.subrange(3, s.len() as int), s[2] as nat, region_style_sizer())->Some_0,
                list_size(s.subrange(3, s.len() as int), s[2] as nat, region_style_sizer()) is Some,
                full == s.subrange(u + 1, s.len() as int),
                decreases n_items - i,
            {
                let ghost before = reader.rest();
                match TgUserStyle::parse(reader) {
                    Ok(x) => {
                        user_styles.push(x);
                    },
                    Err(e) => {
                        return Err(e);
                    },
                }
                proof {
                    let k = (user_style_sizer())(before)->Some_0;
                    assert(reader.rest() =~= full.subrange(used + k, full.len() as int));
                    used = used + k;
                }
                i = i + 1;
            }
            assert(list_size(full, n_items as nat, user_style_sizer()) == Some(used));
            user_styles
        };
        let ghost p = u + 1 + list_size(s.subrange(u + 1, s.len() as int), s[u] as nat, user_style_sizer())->Some_0;
        assert(reader.rest() =~= s.subrange(p, s.len() as int));
        let palette_entries = read_palette_entries(reader)?;
        assert(reader.rest() =~= s.subrange(dialog_style_size(s)->Some_0, s.len() as int));
        Ok(TgDialogStyle { player_style_flag, region_styles, user_styles, palette_entries })
    }
}

/// The dialog style segment: styles and the number of dialogs in the stream.
#[derive(Debug)]
pub struct TgsDialogStyle {
    pub style: TgDialogStyle,
    pub num_dialogs: u16,
}

impl TgsDialogStyle {
    /// Reads the styles and the dialog count.
    pub fn parse(reader: &mut SliceReader) -> (r: Result<TgsDialogStyle, Error>)
        ensures
            no_lost_sync(r),
            ({
                let s = old(reader).rest();
                let k = dialog_style_size(s)->Some_0;
                &&& r is Ok <==> dialog_style_size(s) is Some && s.len() >= k + 2
                &&& r is Ok ==> r->Ok_0.num_dialogs == be16_at(s, k)
                    && SliceReader::advanced(*old(reader), *final(reader), k + 2)
            }),
    {
        let ghost s = reader.rest();
        let style = TgDialogStyle::parse(reader)?;
        let ghost k = dialog_style_size(s)->Some_0;
        assert(reader.rest() =~= s.subrange(k, s.len() as int));
        let num_dialogs = reader.read_be_u16()?;
        assert(reader.rest() =~= s.subrange(k + 2, s.len() as int));
        Ok(TgsDialogStyle { style, num_dialogs })
    }
}

/// One region of presented text.
#[derive(Debug)]
pub struct TgDialogRegion {
    pub continuous_present_flag: bool,
    pub forced_on_flag: bool,
    pub region_style_id_ref: u8,
    /// Text and inline formatting codes.
    pub data: Vec<u8>,
}

pub open spec fn region_sizer() -> spec_fn(Seq<u8>) -> Option<int> {
    |s: Seq<u8>| if s.len() >= 4 && s.len() >= 4 + be16_at(s, 2) { Some(4 + be16_at(s, 2)) } else { None }
}

impl TgDialogRegion {
    /// Reads the flags, the style reference and a length-prefixed blob.
    pub fn parse(reader: &mut SliceReader) -> (r: Result<TgDialogRegion, Error>)
        ensures
            no_lost_sync(r),
            item_read(*old(reader), *final(reader), region_sizer(), r is Ok),
            r is Ok ==> {
                let s = old(reader).rest();
                &&& r->Ok_0.continuous_present_flag == ((s[0] >> 7u8) & 1 == 1)
                &&& r->Ok_0.forced_on_flag == ((s[0] >> 6u8) & 1 == 1)
                &&& r->Ok_0.region_style_id_ref == s[1]
                &&& r->Ok_0.data@ == s.subrange(4, 4 + be16_at(s, 2))
            },
    {
        let ghost s = reader.rest();
        let b = reader.read(4)?;
        assert(b@ =~= s.subrange(0, 4));
        let len = u16_at(b, 2) as usize;
        let blob = reader.read(len)?;
        assert(blob@ =~= s.subrange(4, 4 + len));
        assert(reader.rest() =~= s.subrange(4 + len, s.len() as int));
        let mut data: Vec<u8> = Vec::new();
        data.extend_from_slice(blob);
        Ok(TgDialogRegion {
            continuous_present_flag: (b[0] >> 7u8) & 1 == 1,
            forced_on_flag: (b[0] >> 6u8) & 1 == 1,
            region_style_id_ref: b[1],
            data,
        })
    }
}

/// Text shown between two time stamps.
#[derive(Debug)]
pub struct TgsDialogPresentation {
    pub start_pts: u64,
    pub end_pts: u64,
    /// A palette update, where flagged.
    pub palette_update: Option<Vec<PgsPaletteEntry>>,
    /// At most two regions; further ones in the count are not read.
    pub regions: Vec<TgDialogRegion>,
}

/// How many regions a presentation reads: its count, at most two.
pub open spec fn region_count(c: u8) -> u8 {
    if c > 2 { 2 } else { c }
}

/// The bytes that a dialog presentation takes.
pub open spec fn presentation_size(s: Seq<u8>) -> Option<int> {
    if s.len() < 11 {
        None
    } else {
        let p = if (s[10] >> 7u8) & 1 == 1 { pal_size(s.subrange(11, s.len() as int)) } else { Some(0int) };
        match p {
            None => None,
            Some(k) => {
                let c = 11 + k;
                if s.len() < c + 1 {
                    None
                } else {
                    opt_add(c + 1, list_size(s.subrange(c + 1, s.len() as int), region_count(s[c]) as nat, region_sizer()))
                }
            },
        }
    }
}

impl TgsDialogPresentation {
    /// Reads the two time stamps, the optional palette and up to two regions.
    pub fn parse(reader: &mut SliceReader) -> (r: Result<TgsDialogPresentation, Error>)
        ensures
            no_lost_sync(r),
            item_read(*old(reader), *final(reader), |s: Seq<u8>| presentation_size(s), r is Ok),
            r is Ok ==> {
                let s = old(reader).rest();
                let p = r->Ok_0;
                &&& p.start_pts == be33(s.subrange(0, 5))
                &&& p.end_pts == be33(s.subrange(5, 10))
                &&& (p.palette_update is Some <==> (s[10] >> 7u8) & 1 == 1)
                &&& p.regions@.len() <= 2
            },
    {
        let ghost s = reader.rest();
        let start_pts = reader.read_be_u33()?;
        assert(be33(s) == be33(s.subrange(0, 5))) by {
            assert(s.subrange(1, 5) =~= s.subrange(0, 5).subrange(1, 5));
        }
        assert(reader.rest() =~= s.subrange(5, s.len() as int));
        let end_pts = reader.read_be_u33()?;
        assert(be33(s.subrange(5, s.len() as int)) == be33(s.subrange(5, 10))) by {
            assert(s.subrange(5, s.len() as int).subrange(1, 5) =~= s.subrange(5, 10).subrange(1, 5));
        }
        assert(reader.rest() =~= s.subrange(10, s.len() as int));
        let flag_byte = reader.read_u8()?;
        let has_palette_update = (flag_byte >> 7u8) & 1 == 1;
        assert(reader.rest() =~= s.subrange(11, s.len() as int));
        let palette_update = if has_palette_update {
            Some(read_palette_entries(reader)?)
        } else {
            None
        };
        let ghost c = 11 + (if has_palette_update { pal_size(s.subrange(11, s.len() as int))->Some_0 } else { 0int });
        assert(reader.rest() =~= s.subrange(c, s.len() as int));
        let count = reader.read_u8()?;
        assert(reader.rest() =~= s.subrange(c + 1, s.len() as int));
        let nr: u8 = if count > 2 { 2 } else { count };
        let ghost full = reader.rest();
        let ghost start = *reader;
        let ghost mut used: int = 0;
        let n_items = nr;
        let mut regions: Vec<TgDialogRegion> = Vec::new();
        let mut i: u16 = 0;
        assert(full.subrange(0, full.len() as int) =~= full);
        while i < n_items as u16
            invariant
                regions@.len() == i,
                i <= n_items,
                full == start.rest(),
                0 <= used <= full.len(),
                SliceReader::advanced(start, *reader, used),
                list_size(full, n_items as nat, region_sizer()) == opt_add(used, list_size(reader.rest(), (n_items - i) as nat, region_sizer())),
                s == old(reader).rest(),
                s.len() >= c + 1,
                n_items == region_count(s[c]),
                n_items <= 2,
                c == 11 + (if (s[10] >> 7u8) & 1 == 1 { pal_size(s.subrange(11, s.len() as int))->Some_0 } else { 0int }),
                (s[10] >> 7u8) & 1 == 1 ==> pal_size(s.subrange(11, s.len() as int)) is Some,
                full == s.subrange(c + 1, s.len() as int),
            decreases n_items - i,
        {
            let ghost before = reader.rest();
            match TgDialogRegion::parse(reader) {
                Ok(x) => {
                    regions.push(x);
                },
                Err(e) => {
                    return Err(e);
                },
            }
            proof {
                let k = (region_sizer())(before)->Some_0;
                assert(reader.rest() =~= full.subrange(used + k, full.len() as int));
                used = used + k;
            }
            i = i + 1;
        }
        assert(list_size(full, n_items as nat, region_sizer()) == Some(used));
        assert(reader.rest() =~= s.subrange(presentation_size(s)->Some_0, s.len() as int));
        Ok(TgsDialogPresentation { start_pts, end_pts, palette_update, regions })
    }
}

/// What a graphics segment's type byte announces.
pub open spec fn segment_type_known(t: u8) -> bool {
    t == 0x14 || t == 0x15 || t == 0x16 || t == 0x17 || t == 0x18 || t == 0x80 || t == 0x81 || t == 0x82
}

/// Whether a decoded segment is of the type `t` announces.
pub open spec fn segment_matches(d: PgSegmentData, t: u8) -> bool {
    match d {
        PgSegmentData::Raw(_) => false,
        PgSegmentData::PgsPalette(_) => t == 0x14,
        PgSegmentData::PgsObject(_) => t == 0x15,
        PgSegmentData::PgsPgComposition(_) => t == 0x16,
        PgSegmentData::PgsWindow(_) => t == 0x17,
        PgSegmentData::PgsIgComposition(_) => t == 0x18,
        PgSegmentData::PgsEndOfDisplay(_) => t == 0x80,
        PgSegmentData::TgsDialogStyle(_) => t == 0x81,
        PgSegmentData::TgsDialogPresentation(_) => t == 0x82,
    }
}

/// Whether the body of a segment of type `t` decodes, given the pending fragments.
pub open spec fn segment_body_ok(t: u8, b: Seq<u8>, storage: BdavParserStorage) -> bool {
    if t == 0x14 {
        b.len() >= 2 && (b.len() - 2) % 5 == 0
    } else if t == 0x15 {
        object_ok(b, storage.pending(FragmentKind::Object))
    } else if t == 0x16 {
        pg_composition_ok(b)
    } else if t == 0x17 {
        b.len() >= 1 && b.len() >= 1 + 9 * b[0]
    } else if t == 0x18 {
        ig_composition_ok(b, storage.pending(FragmentKind::IgComposition))
    } else if t == 0x80 {
        true
    } else if t == 0x81 {
        dialog_style_size(b) is Some && b.len() >= dialog_style_size(b)->Some_0 + 2
    } else if t == 0x82 {
        presentation_size(b) is Some
    } else {
        false
    }
}

/// Whether a segment decodes: type, length, and a body of that length of a known type that
/// decodes.
pub open spec fn segment_ok(s: Seq<u8>, storage: BdavParserStorage) -> bool {
    s.len() >= 3 && s.len() >= 3 + be16_at(s, 1) && segment_body_ok(s[0], s.subrange(3, 3 + be16_at(s, 1)), storage)
}

/// Reads one segment: a type byte, a 16-bit length, and that many bytes decoded by type.
pub fn parse_pg_segment_data(reader: &mut SliceReader, storage: &mut BdavParserStorage) -> (r: Result<PgSegmentData, Error>)
    requires
        old(storage).wf(),
    ensures
        no_lost_sync(r),
        final(storage).wf(),
        r is Ok ==> old(reader).rest().len() >= 3 && segment_matches(r->Ok_0, old(reader).rest()[0]),
        r is Ok <==> segment_ok(old(reader).rest(), *old(storage)),
        ({
            let s = old(reader).rest();
            s.len() >= 3 + be16_at(s, 1) && !segment_type_known(s[0]) ==> r == Err::<PgSegmentData, Error>(
                Error {
                    location: (old(reader).pos() + 3) as usize,
                    details: ErrorDetails::AppError(BdavErrorDetails::UnknownPgSegmentType(s[0])),
                },
            )
        }),
{
    let ghost s = reader.rest();
    let b = reader.read(3)?;
    assert(b@ =~= s.subrange(0, 3));
    let seg_type = b[0];
    let mut seg = reader.new_sub_reader(u16_at(b, 1) as usize)?;
    assert(seg.rest() =~= s.subrange(3, 3 + be16_at(s, 1)));
    let r = if seg_type == 0x14 {
        PgSegmentData::PgsPalette(PgsPalette::parse(&mut seg)?)
    } else if seg_type == 0x15 {
        PgSegmentData::PgsObject(PgsObject::parse(&mut seg, storage)?)
    } else if seg_type == 0x16 {
        PgSegmentData::PgsPgComposition(PgsPgComposition::parse(&mut seg)?)
    } else if seg_type == 0x17 {
        PgSegmentData::PgsWindow(PgsWindow::parse(&mut seg)?)
    } else if seg_type == 0x18 {
        PgSegmentData::PgsIgComposition(PgsIgComposition::parse(&mut seg, storage)?)
    } else if seg_type == 0x80 {
        PgSegmentData::PgsEndOfDisplay(PgsEndOfDisplay {})
    } else if seg_type == 0x81 {
        PgSegmentData::TgsDialogStyle(TgsDialogStyle::parse(&mut seg)?)
    } else if seg_type == 0x82 {
        PgSegmentData::TgsDialogPresentation(TgsDialogPresentation::parse(&mut seg)?)
    } else {
        return Err(seg.make_error(ErrorDetails::AppError(BdavErrorDetails::UnknownPgSegmentType(seg_type))));
    };
    Ok(r)
}

/// A graphics PES unit: raw bytes while it is reassembled, then the segment they hold.
#[derive(Debug)]
pub enum PgSegmentData {
    /// Bytes received so far.
    Raw(Vec<u8>),
    PgsPalette(PgsPalette),
    PgsObject(PgsObject),
    PgsPgComposition(PgsPgComposition),
    PgsWindow(PgsWindow),
    PgsIgComposition(PgsIgComposition),
    PgsEndOfDisplay(PgsEndOfDisplay),
    TgsDialogStyle(TgsDialogStyle),
    TgsDialogPresentation(TgsDialogPresentation),
}

impl PgSegmentData {
    /// Decodes the segment once its bytes have all arrived. A segment already decoded is
    /// left as it is.
    pub fn finish(&mut self, storage: &mut BdavParserStorage) -> (r: Result<(), Error>)
        requires
            old(storage).wf(),
        ensures
            no_lost_sync(r),
            final(storage).wf(),
            *old(self) is Raw && r is Ok ==> {
                let b = old(self)->Raw_0@;
                b.len() >= 3 && segment_matches(*final(self), b[0])
            },
            *old(self) is Raw ==> (r is Ok <==> segment_ok(old(self)->Raw_0@, *old(storage))),
            r is Err ==> *final(self) == *old(self),
            !(*old(self) is Raw) ==> r is Ok && *final(self) == *old(self) && *final(storage) == *old(storage),
    {
        let parsed = match self {
            PgSegmentData::Raw(data) => parse_pg_segment_data(&mut SliceReader::new(data.as_slice()), storage)?,
            _ => {
                return Ok(());
            },
        };
        *self = parsed;
        Ok(())
    }
}

} // verus!
