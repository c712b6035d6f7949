use mpegts_io::pg::{
    parse_pg_segment_data, BdavParserStorage, PgSegmentData, PgsObject, PgsPalette, PgsWindow,
};
use mpegts_io::psi::{PsiBuilder, PsiData, PsiHeader, PsiTableSyntax};
use mpegts_io::{BdavErrorDetails, ErrorDetails, SliceReader};
use std::collections::HashSet;

fn object_segment(first: bool, last: bool, body: &[u8]) -> Vec<u8> {
    let mut v = vec![0x00, 0x07, 0x01];
    v.push((if first { 0x80 } else { 0 }) | (if last { 0x40 } else { 0 }));
    v.extend_from_slice(body);
    v
}

#[test]
fn fragmented_object_matches_whole_object() {
    // Object data: width 2, height 3, then 6 bytes of pixels; declared length 10.
    let data = [0x00, 0x02, 0x00, 0x03, 1, 2, 3, 4, 5, 6];
    let mut whole_body = vec![0x00, 0x00, 0x0a];
    whole_body.extend_from_slice(&data);
    let mut storage = BdavParserStorage::new();
    let whole = PgsObject::parse(&mut SliceReader::new(&object_segment(true, true, &whole_body)), &mut storage).unwrap();
    let whole_data = whole.data.unwrap();

    let mut first_body = vec![0x00, 0x00, 0x0a];
    first_body.extend_from_slice(&data[..3]);
    let first = PgsObject::parse(&mut SliceReader::new(&object_segment(true, false, &first_body)), &mut storage).unwrap();
    assert!(first.data.is_none());
    let middle = PgsObject::parse(&mut SliceReader::new(&object_segment(false, false, &data[3..7])), &mut storage).unwrap();
    assert!(middle.data.is_none());
    let last = PgsObject::parse(&mut SliceReader::new(&object_segment(false, true, &data[7..])), &mut storage).unwrap();
    let last_data = last.data.unwrap();
    assert_eq!(last_data.width, whole_data.width);
    assert_eq!(last_data.height, whole_data.height);
    assert_eq!(last_data.data, whole_data.data);
    assert_eq!(last_data.data, vec![1, 2, 3, 4, 5, 6]);
}

#[test]
fn over_long_fragments_are_truncated() {
    let mut storage = BdavParserStorage::new();
    let first_body = [0x00, 0x00, 0x05, 0x00, 0x01];
    PgsObject::parse(&mut SliceReader::new(&object_segment(true, false, &first_body)), &mut storage).unwrap();
    let last = PgsObject::parse(&mut SliceReader::new(&object_segment(false, true, &[0x00, 0x01, 9, 9, 9])), &mut storage).unwrap();
    let d = last.data.unwrap();
    assert_eq!(d.width, 1);
    assert_eq!(d.height, 1);
    assert_eq!(d.data, vec![9]);
}

#[test]
fn continuation_without_first_fragment_is_an_error() {
    let mut storage = BdavParserStorage::new();
    let e = PgsObject::parse(&mut SliceReader::new(&object_segment(false, true, &[1, 2, 3, 4])), &mut storage).unwrap_err();
    assert_eq!(e.details, ErrorDetails::AppError(BdavErrorDetails::NonStartedPgsObject));
}

#[test]
fn unknown_segment_type() {
    let mut storage = BdavParserStorage::new();
    let bytes = [0x99, 0x00, 0x01, 0x00];
    let e = parse_pg_segment_data(&mut SliceReader::new(&bytes), &mut storage).unwrap_err();
    assert_eq!(e.location, 3);
    assert_eq!(e.details, ErrorDetails::AppError(BdavErrorDetails::UnknownPgSegmentType(0x99)));
}

#[test]
fn window_segment() {
    let mut storage = BdavParserStorage::new();
    let bytes = [0x17, 0x00, 0x0a, 0x01, 0x05, 0x00, 0x10, 0x00, 0x20, 0x01, 0x00, 0x00, 0x40];
    match parse_pg_segment_data(&mut SliceReader::new(&bytes), &mut storage).unwrap() {
        PgSegmentData::PgsWindow(PgsWindow { windows }) => {
            assert_eq!(windows.len(), 1);
            assert_eq!(windows[0].id, 5);
            assert_eq!(windows[0].x, 0x10);
            assert_eq!(windows[0].y, 0x20);
            assert_eq!(windows[0].width, 0x100);
            assert_eq!(windows[0].height, 0x40);
        }
        _ => panic!("expected a window segment"),
    }
}

#[test]
fn palette_entries_default_to_zero() {
    let bytes = [0x01, 0x02, 0x07, 10, 20, 30, 40];
    let p = PgsPalette::parse(&mut SliceReader::new(&bytes)).unwrap();
    assert_eq!(p.id, 1);
    assert_eq!(p.version, 2);
    assert_eq!(p.entries.len(), 256);
    assert_eq!((p.entries[7].y, p.entries[7].cr, p.entries[7].cb, p.entries[7].t), (10, 20, 30, 40));
    assert_eq!(p.entries[8].y, 0);
}

#[test]
fn pmt_with_descriptors() {
    // PMT body: PCR PID 0x100, program info of one descriptor, one stream with one descriptor.
    let body = vec![
        0xe1, 0x00, 0xf0, 0x03, 0x09, 0x01, 0xaa, // header + program descriptor
        0x1b, 0xe1, 0x01, 0xf0, 0x04, 0x0a, 0x02, 0x65, 0x6e, // stream entry
    ];
    let header_bytes = [0x02, 0xb0, (5 + body.len() + 4) as u8];
    let syntax_bytes = [0x00, 0x01, 0xc1, 0x00, 0x00];
    let mut covered = header_bytes.to_vec();
    covered.extend_from_slice(&syntax_bytes);
    covered.extend_from_slice(&body);
    let crc = crc::Crc::<u32>::new(&crc::CRC_32_MPEG_2).checksum(&covered);
    let mut data = body.clone();
    data.extend_from_slice(&crc.to_be_bytes());
    let builder = PsiBuilder {
        location: 5,
        header: PsiHeader::from_bytes(&header_bytes),
        table_syntax: Some(PsiTableSyntax::from_bytes(&syntax_bytes)),
        prefix: covered[..8].to_vec(),
        data,
    };
    let mut pmt_pids = HashSet::new();
    pmt_pids.insert(0x1000u16);
    let psi = builder.finish(0x1000, &mut pmt_pids).unwrap();
    match psi.data {
        PsiData::Pmt(pmt) => {
            assert_eq!(pmt.header.pcr_pid, 0x100);
            assert_eq!(pmt.program_descriptors.len(), 1);
            assert_eq!(pmt.program_descriptors[0].tag, 0x09);
            assert_eq!(pmt.program_descriptors[0].data.as_slice(), &[0xaa]);
            assert_eq!(pmt.es_infos.len(), 1);
            assert_eq!(pmt.es_infos[0].header.stream_type, 0x1b);
            assert_eq!(pmt.es_infos[0].header.elementary_pid, 0x101);
            assert_eq!(pmt.es_infos[0].es_descriptors[0].data.as_slice(), &[0x65, 0x6e]);
        }
        _ => panic!("expected a PMT"),
    }
}
