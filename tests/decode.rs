use iris_font::cmap::cmap_lookup;
use iris_font::cursor::{read_i16, read_u16, read_u32};
use iris_font::deltas::{accumulate, encode_deltas, read_deltas, read_flags};
use iris_font::directory::{find_table, parse_directory, TableRecord};
use iris_font::error::FormatError;
use iris_font::glyph::{decode_compound, decode_glyph, decode_simple, GlyphData, Point};
use iris_font::outline::{contour_path, midpoint, PathCommand, PathPoint};

fn pt(x: i32, y: i32, on_curve: bool) -> Point {
    Point { x, y, on_curve }
}

#[test]
fn reads_big_endian_values() {
    let b = [0x12, 0x34, 0xff, 0xfe, 0x00];
    assert_eq!(read_u16(&b, 0), Ok(0x1234));
    assert_eq!(read_i16(&b, 2), Ok(-2));
    assert_eq!(read_u32(&b, 0), Ok(0x1234fffe));
    assert_eq!(read_u16(&b, 4), Err(FormatError::TruncatedBuffer));
}

#[test]
fn flags_expand_repeats() {
    // 0x01, then 0x09 repeated 2 more times, then 0x00.
    let b = [0x01, 0x09, 0x02, 0x00, 0xaa];
    let (flags, end) = read_flags(&b, 0, 5).unwrap();
    assert_eq!(flags, vec![0x01, 0x09, 0x09, 0x09, 0x00]);
    assert_eq!(end, 4);
    assert_eq!(read_flags(&b, 0, 6).unwrap_err(), FormatError::TruncatedBuffer);
}

#[test]
fn repeat_count_is_cut_at_point_count() {
    let b = [0x08, 0x09];
    let (flags, end) = read_flags(&b, 0, 3).unwrap();
    assert_eq!(flags, vec![0x08, 0x08, 0x08]);
    assert_eq!(end, 2);
}

#[test]
fn deltas_in_all_three_forms() {
    // short positive 5, short negative 7, same (zero), long -300.
    let flags = vec![0x02 | 0x10, 0x02, 0x10, 0x00];
    let b = [5, 7, 0xfe, 0xd4];
    let (d, end) = read_deltas(&b, 0, &flags, 0x02, 0x10).unwrap();
    assert_eq!(d, vec![5, -7, 0, -300]);
    assert_eq!(end, 4);
    assert_eq!(read_deltas(&b[..3], 0, &flags, 0x02, 0x10).unwrap_err(), FormatError::TruncatedBuffer);
}

#[test]
fn delta_round_trip() {
    let d = vec![100, -30, 0, 32767, -32768, 5];
    let a = accumulate(&d);
    assert_eq!(a, vec![100, 70, 70, 32837, 69, 74]);
    let back: Vec<i32> = encode_deltas(&a).into_iter().map(|v| v as i32).collect();
    assert_eq!(back, d);
}

#[test]
fn midpoint_is_exact() {
    let m = midpoint(pt(1, 2, false), pt(4, 7, false));
    assert_eq!(m, PathPoint { hx: 5, hy: 9 });
}

#[test]
fn empty_contour_draws_nothing() {
    assert!(contour_path(&[]).is_empty());
}

#[test]
fn single_off_curve_point_closes_on_itself() {
    let cmds = contour_path(&[pt(3, 4, false)]);
    let p = PathPoint { hx: 6, hy: 8 };
    assert_eq!(cmds, vec![PathCommand::MoveTo(p), PathCommand::QuadraticCurveTo(p, p)]);
}

#[test]
fn contour_starts_at_first_on_curve_point() {
    let cmds = contour_path(&[pt(0, 0, false), pt(10, 0, true), pt(10, 10, true)]);
    let p = |x: i64, y: i64| PathPoint { hx: 2 * x, hy: 2 * y };
    assert_eq!(
        cmds,
        vec![
            PathCommand::MoveTo(p(10, 0)),
            PathCommand::LineTo(p(10, 10)),
            PathCommand::QuadraticCurveTo(p(0, 0), p(10, 0)),
        ]
    );
}

fn glyph_header(nc: i16) -> Vec<u8> {
    let mut b = nc.to_be_bytes().to_vec();
    b.extend_from_slice(&[0; 8]);
    b
}

#[test]
fn end_points_must_increase() {
    let mut b = glyph_header(2);
    b.extend_from_slice(&[0, 3, 0, 3, 0, 0]);
    assert_eq!(decode_simple(&b, 2).unwrap_err(), FormatError::MalformedGlyph);
    assert_eq!(decode_glyph(&b).unwrap_err(), FormatError::MalformedGlyph);
}

#[test]
fn instructions_are_skipped() {
    let mut b = glyph_header(1);
    // one contour ending at point 0, two instruction bytes, one flag, short x, same y.
    b.extend_from_slice(&[0, 0, 0, 2, 0xb0, 0x01, 0x01 | 0x02 | 0x10 | 0x20, 9]);
    let (_, data) = decode_glyph(&b).unwrap();
    let GlyphData::Simple(s) = data else { panic!("simple") };
    assert_eq!(s.coordinates, vec![pt(9, 0, true)]);
}

#[test]
fn other_negative_contour_counts_are_malformed() {
    assert_eq!(decode_glyph(&glyph_header(-2)).unwrap_err(), FormatError::MalformedGlyph);
    assert_eq!(decode_glyph(&[0, 1, 0]).unwrap_err(), FormatError::TruncatedBuffer);
    assert!(matches!(decode_glyph(&[]).unwrap().1, GlyphData::Empty));
}

#[test]
fn point_matching_component_is_unsupported() {
    let b = [0x00, 0x00, 0x00, 0x01, 0x00, 0x00];
    assert_eq!(decode_compound(&b, 0).unwrap_err(), FormatError::UnsupportedCompoundEncoding);
}

#[test]
fn two_by_two_component() {
    let b = [0x00, 0x82, 0x00, 0x07, 0x01, 0xff, 0x40, 0, 0, 0, 0, 0, 0x40, 0];
    let c = decode_compound(&b, 0).unwrap();
    assert_eq!(c.components.len(), 1);
    assert_eq!((c.components[0].glyph_index, c.components[0].dx, c.components[0].dy), (7, 1, -1));
    assert_eq!(c.components[0].transform, iris_font::glyph::Transform::TwoByTwo(0x4000, 0, 0, 0x4000));
    assert_eq!(decode_compound(&b[..12], 0).unwrap_err(), FormatError::TruncatedBuffer);
}

#[test]
fn directory_records_and_lookup() {
    let mut b = vec![0x74, 0x72, 0x75, 0x65, 0, 1, 0, 0, 0, 0, 0, 0];
    b.extend_from_slice(b"glyf");
    b.extend_from_slice(&[0, 0, 0, 0, 0, 0, 0, 28, 0, 0, 0, 2, 0xaa, 0xbb]);
    let recs = parse_directory(&b).unwrap();
    assert_eq!(recs, vec![TableRecord { tag: 0x676c7966, offset: 28, length: 2 }]);
    assert_eq!(find_table(&recs, 0x676c7966).unwrap().offset, 28);
    assert_eq!(find_table(&recs, 0x68656164), None);
    b[27] = 3;
    assert_eq!(parse_directory(&b).unwrap_err(), FormatError::TruncatedBuffer);
}

#[test]
fn cmap_maps_by_delta_and_by_array() {
    // segments: 'a'..'b' by delta to 10.., 'c' by array to 42, and the end.
    let mut t = vec![0, 4, 0, 0, 0, 0, 0, 6, 0, 0, 0, 0, 0, 0];
    for v in [0x62u16, 0x63, 0xffff, 0, 0x61, 0x63, 0xffff] {
        t.extend_from_slice(&v.to_be_bytes());
    }
    for v in [10u16.wrapping_sub(0x61), 0, 1, 0, 4, 0, 42] {
        t.extend_from_slice(&v.to_be_bytes());
    }
    assert_eq!(cmap_lookup(&t, 'a' as u32), 10);
    assert_eq!(cmap_lookup(&t, 'b' as u32), 11);
    assert_eq!(cmap_lookup(&t, 'c' as u32), 42);
    assert_eq!(cmap_lookup(&t, 'd' as u32), 0);
    assert_eq!(cmap_lookup(&t, 0x1f600), 0);
    assert_eq!(cmap_lookup(&[], 'a' as u32), 0);
}
