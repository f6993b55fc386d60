use iris_font::canvas::{dom_new_canvas, draw_glyph_to_canvas, index_html};
use iris_font::error::FormatError;
use iris_font::font::{parse, Font};
use iris_font::glyph::{GlyphData, Transform};
use iris_font::outline::{outline_path, PathCommand, PathPoint};
use iris_font::shaper::TrueTypeFontShaper;

fn be16(out: &mut Vec<u8>, v: u16) {
    out.extend_from_slice(&v.to_be_bytes());
}

fn bei16(out: &mut Vec<u8>, v: i16) {
    out.extend_from_slice(&v.to_be_bytes());
}

fn be32(out: &mut Vec<u8>, v: u32) {
    out.extend_from_slice(&v.to_be_bytes());
}

/// A simple glyph with two-byte deltas for every point.
fn simple_glyph(contours: &[&[(i16, i16, bool)]]) -> Vec<u8> {
    let pts: Vec<(i16, i16, bool)> = contours.iter().flat_map(|c| c.iter().copied()).collect();
    let mut out = Vec::new();
    bei16(&mut out, contours.len() as i16);
    let xmin = pts.iter().map(|p| p.0).min().unwrap_or(0);
    let ymin = pts.iter().map(|p| p.1).min().unwrap_or(0);
    let xmax = pts.iter().map(|p| p.0).max().unwrap_or(0);
    let ymax = pts.iter().map(|p| p.1).max().unwrap_or(0);
    for v in [xmin, ymin, xmax, ymax] {
        bei16(&mut out, v);
    }
    let mut end = 0i32 - 1;
    for c in contours {
        end += c.len() as i32;
        be16(&mut out, end as u16);
    }
    be16(&mut out, 0);
    for p in &pts {
        out.push(if p.2 { 1 } else { 0 });
    }
    let mut prev = 0i16;
    for p in &pts {
        bei16(&mut out, p.0 - prev);
        prev = p.0;
    }
    prev = 0;
    for p in &pts {
        bei16(&mut out, p.1 - prev);
        prev = p.1;
    }
    out
}

/// A compound glyph: (flags, glyph id, argument bytes, transform bytes).
fn compound_glyph(components: &[(u16, u16, Vec<u8>)]) -> Vec<u8> {
    let mut out = Vec::new();
    bei16(&mut out, -1);
    for v in [0i16, 0, 500, 700] {
        bei16(&mut out, v);
    }
    for (flags, gid, rest) in components {
        be16(&mut out, *flags);
        be16(&mut out, *gid);
        out.extend_from_slice(rest);
    }
    out
}

fn glyphs() -> Vec<Vec<u8>> {
    let square: &[(i16, i16, bool)] = &[(0, 0, true), (0, 700, true), (500, 700, true), (500, 0, true)];
    let a: &[(i16, i16, bool)] = &[(0, 0, true), (250, 700, false), (500, 0, true)];
    let b1: &[(i16, i16, bool)] = &[(0, 0, true), (0, 700, true), (300, 700, true)];
    let b2: &[(i16, i16, bool)] =
        &[(100, 100, false), (200, 100, false), (200, 200, false), (100, 200, false)];
    vec![
        simple_glyph(&[square]),
        simple_glyph(&[a]),
        simple_glyph(&[b1, b2]),
        compound_glyph(&[
            (0x0001 | 0x0002 | 0x0020, 1, vec![0, 0, 0, 0]),
            (0x0002 | 0x0008, 2, vec![10, 0xfb, 0x40, 0x00]),
        ]),
        compound_glyph(&[(0x0002, 99, vec![0, 0])]),
        compound_glyph(&[(0x0002, 5, vec![0, 0])]),
        Vec::new(),
    ]
}

/// A format 4 subtable: ' ' to 6, 'A' and 'B' by delta, 'C' through the
/// glyph id array, and the closing segment.
fn cmap_table() -> Vec<u8> {
    let ends: [u16; 4] = [0x20, 0x42, 0x43, 0xffff];
    let starts: [u16; 4] = [0x20, 0x41, 0x43, 0xffff];
    let deltas: [u16; 4] = [(6u16).wrapping_sub(0x20), (1u16).wrapping_sub(0x41), 0, 1];
    let seg = ends.len() as u16;
    let mut sub = Vec::new();
    be16(&mut sub, 4);
    be16(&mut sub, 0);
    be16(&mut sub, 0);
    be16(&mut sub, seg * 2);
    be16(&mut sub, 0);
    be16(&mut sub, 0);
    be16(&mut sub, 0);
    for e in ends {
        be16(&mut sub, e);
    }
    be16(&mut sub, 0);
    for s in starts {
        be16(&mut sub, s);
    }
    for d in deltas {
        be16(&mut sub, d);
    }
    // The third segment's offset points two entries past itself, at the
    // glyph id array.
    for r in [0u16, 0, 4, 0] {
        be16(&mut sub, r);
    }
    be16(&mut sub, 3);
    let len = sub.len() as u16;
    sub[2..4].copy_from_slice(&len.to_be_bytes());
    let mut out = Vec::new();
    be16(&mut out, 0);
    be16(&mut out, 1);
    be16(&mut out, 3);
    be16(&mut out, 1);
    be32(&mut out, 12);
    out.extend_from_slice(&sub);
    out
}

fn tables(glyph_list: &[Vec<u8>]) -> Vec<([u8; 4], Vec<u8>)> {
    let n = glyph_list.len() as u16;
    let mut head = vec![0u8; 54];
    head[18..20].copy_from_slice(&1000u16.to_be_bytes());
    let mut maxp = Vec::new();
    be32(&mut maxp, 0x00005000);
    be16(&mut maxp, n);
    let mut hhea = vec![0u8; 36];
    hhea[34..36].copy_from_slice(&3u16.to_be_bytes());
    let mut hmtx = Vec::new();
    for (adv, lsb) in [(600u16, 0i16), (650, 10), (700, 20)] {
        be16(&mut hmtx, adv);
        bei16(&mut hmtx, lsb);
    }
    for lsb in [30i16, 40, 50, 60] {
        bei16(&mut hmtx, lsb);
    }
    let mut glyf = Vec::new();
    let mut loca = Vec::new();
    for g in glyph_list {
        be16(&mut loca, (glyf.len() / 2) as u16);
        glyf.extend_from_slice(g);
        if glyf.len() % 2 == 1 {
            glyf.push(0);
        }
    }
    be16(&mut loca, (glyf.len() / 2) as u16);
    vec![
        (*b"cmap", cmap_table()),
        (*b"glyf", glyf),
        (*b"head", head),
        (*b"hhea", hhea),
        (*b"hmtx", hmtx),
        (*b"loca", loca),
        (*b"maxp", maxp),
    ]
}

fn font_bytes(tabs: &[([u8; 4], Vec<u8>)]) -> Vec<u8> {
    let mut out = Vec::new();
    be32(&mut out, 0x00010000);
    be16(&mut out, tabs.len() as u16);
    be16(&mut out, 0);
    be16(&mut out, 0);
    be16(&mut out, 0);
    let mut offset = 12 + 16 * tabs.len() as u32;
    for (tag, data) in tabs {
        out.extend_from_slice(tag);
        be32(&mut out, 0);
        be32(&mut out, offset);
        be32(&mut out, data.len() as u32);
        offset += data.len() as u32;
    }
    for (_, data) in tabs {
        out.extend_from_slice(data);
    }
    out
}

fn sample_font() -> Font {
    parse(&font_bytes(&tables(&glyphs()))).expect("sample font parses")
}

#[test]
fn parse_reads_header_values() {
    let font = sample_font();
    assert_eq!(font.glyph_count(), 7);
    assert_eq!(font.units_per_em(), 1000);
    assert!(!font.is_long_loca());
}

#[test]
fn glyph_zero_decodes() {
    let font = sample_font();
    assert!(font.glyph_count() >= 1);
    let g = font.glyph(0).unwrap();
    assert!(g.is_simple());
    assert_eq!(g.description().width(), 500);
    assert_eq!(g.description().height(), 700);
}

#[test]
fn simple_glyph_has_one_point_past_last_end_point() {
    let font = sample_font();
    let g = font.glyph(2).unwrap();
    let GlyphData::Simple(s) = &g.data else { panic!("glyph 2 is simple") };
    assert_eq!(s.end_points_of_contours, vec![2, 6]);
    assert_eq!(s.coordinates.len(), 7);
    assert_eq!((s.coordinates[4].x, s.coordinates[4].y), (200, 100));
    assert!(!s.on_curve(4));
    assert!(s.on_curve(0));
}

#[test]
fn shaping_ab_gives_cmap_ids_and_advance() {
    let font = sample_font();
    let shaper = TrueTypeFontShaper::new(&font);
    let out = shaper.shape("AB");
    assert_eq!(out.len(), 2);
    assert_eq!(out[0].glyph.id, font.glyph_id('A'));
    assert_eq!(out[1].glyph.id, font.glyph_id('B'));
    assert_eq!(out[0].glyph.id, 1);
    assert_eq!(out[1].glyph.id, 2);
    assert_eq!(out[1].pen_x - out[0].pen_x, out[0].glyph.advance_width as u128);
    assert_eq!(out[1].pen_x, 650);
    assert_eq!(out[0].pen_y, 0);
}

#[test]
fn shaping_empty_text_gives_nothing() {
    let font = sample_font();
    assert!(TrueTypeFontShaper::new(&font).shape("").is_empty());
}

#[test]
fn shaping_keeps_order_and_pen_never_moves_back() {
    let font = sample_font();
    let out = TrueTypeFontShaper::new(&font).shape("BA ZC");
    let ids: Vec<u16> = out.iter().map(|s| s.glyph.id).collect();
    assert_eq!(ids, vec![2, 1, 6, 0, 3]);
    let pens: Vec<u128> = out.iter().map(|s| s.pen_x).collect();
    assert_eq!(pens, vec![0, 700, 1350, 2050, 2650]);
    for w in pens.windows(2) {
        assert!(w[0] <= w[1]);
    }
}

#[test]
fn unmapped_character_uses_glyph_zero_metrics() {
    let font = sample_font();
    let out = TrueTypeFontShaper::new(&font).shape("Zé");
    assert_eq!(out.len(), 2);
    assert_eq!(out[0].glyph.id, 0);
    assert_eq!(out[0].glyph.advance_width, 600);
    assert_eq!(out[1].pen_x, 600);
}

#[test]
fn shaping_substitutes_empty_outline_for_broken_glyph() {
    let font = sample_font();
    let mut list = glyphs();
    list[1] = compound_glyph(&[(0x0002, 1, vec![0, 0])]);
    let broken = parse(&font_bytes(&tables(&list))).unwrap();
    let out = TrueTypeFontShaper::new(&broken).shape("AB");
    assert!(matches!(out[0].glyph.data, GlyphData::Empty));
    assert_eq!(out[0].error, Some(FormatError::CompoundCycle));
    assert_eq!(out[1].error, None);
    assert_eq!(out[0].glyph.advance_width, 650);
    assert_eq!(out[1].pen_x, 650);
    assert!(font.glyph(1).is_ok());
}

#[test]
fn compound_with_missing_component_is_invalid_index() {
    let font = sample_font();
    assert_eq!(font.glyph(4).unwrap_err(), FormatError::InvalidGlyphIndex);
}

#[test]
fn self_referencing_compound_is_a_cycle() {
    let font = sample_font();
    assert_eq!(font.glyph(5).unwrap_err(), FormatError::CompoundCycle);
}

#[test]
fn nested_cycle_is_stopped_by_depth() {
    let mut list = glyphs();
    list[4] = compound_glyph(&[(0x0002, 5, vec![0, 0])]);
    list[5] = compound_glyph(&[(0x0002, 4, vec![0, 0])]);
    let font = parse(&font_bytes(&tables(&list))).unwrap();
    assert_eq!(font.glyph(4).unwrap_err(), FormatError::CompoundCycle);
}

#[test]
fn compound_glyph_components() {
    let font = sample_font();
    let g = font.glyph(3).unwrap();
    let GlyphData::Compound(c) = &g.data else { panic!("glyph 3 is compound") };
    assert_eq!(c.components.len(), 2);
    assert_eq!(c.components[0].glyph_index, 1);
    assert_eq!(c.components[0].transform, Transform::Identity);
    assert_eq!(c.components[1].glyph_index, 2);
    assert_eq!((c.components[1].dx, c.components[1].dy), (10, -5));
    assert_eq!(c.components[1].transform, Transform::Scale(0x4000));
    assert_eq!(outline_path(&g).unwrap_err(), FormatError::UnsupportedCompoundEncoding);
}

#[test]
fn glyph_id_past_count_is_invalid() {
    let font = sample_font();
    assert_eq!(font.glyph(7).unwrap_err(), FormatError::InvalidGlyphIndex);
}

#[test]
fn empty_glyph_and_trailing_metrics() {
    let font = sample_font();
    let g = font.glyph(6).unwrap();
    assert!(matches!(g.data, GlyphData::Empty));
    assert_eq!(g.advance_width, 700);
    assert_eq!(g.left_side_bearing, 60);
    assert!(outline_path(&g).unwrap().is_empty());
    let g1 = font.glyph(1).unwrap();
    assert_eq!((g1.advance_width, g1.left_side_bearing), (650, 10));
}

#[test]
fn bad_magic_is_refused() {
    let mut bytes = font_bytes(&tables(&glyphs()));
    bytes[0] = 0x4f;
    assert_eq!(parse(&bytes).err().unwrap(), FormatError::BadMagic);
}

#[test]
fn short_buffer_is_truncated() {
    let bytes = font_bytes(&tables(&glyphs()));
    assert_eq!(parse(&bytes[..40]).err().unwrap(), FormatError::TruncatedBuffer);
    assert_eq!(parse(&bytes[..2]).err().unwrap(), FormatError::TruncatedBuffer);
}

#[test]
fn missing_cmap_is_named() {
    let tabs: Vec<_> = tables(&glyphs()).into_iter().filter(|t| &t.0 != b"cmap").collect();
    assert_eq!(parse(&font_bytes(&tabs)).err().unwrap(), FormatError::MissingTable(0x636d6170));
}

#[test]
fn decreasing_loca_is_malformed() {
    let mut tabs = tables(&glyphs());
    let loca = &mut tabs.iter_mut().find(|t| &t.0 == b"loca").unwrap().1;
    loca[2] = 0xff;
    assert_eq!(parse(&font_bytes(&tabs)).err().unwrap(), FormatError::MalformedTable);
}

#[test]
fn broken_glyph_zero_fails_loading() {
    let mut list = glyphs();
    list[0] = compound_glyph(&[(0x0002, 0, vec![0, 0])]);
    assert_eq!(parse(&font_bytes(&tables(&list))).err().unwrap(), FormatError::CompoundCycle);
}

#[test]
fn outline_of_glyph_with_curve() {
    let font = sample_font();
    let g = font.glyph(1).unwrap();
    let p = |x: i64, y: i64| PathPoint { hx: 2 * x, hy: 2 * y };
    assert_eq!(
        outline_path(&g).unwrap(),
        vec![
            PathCommand::MoveTo(p(0, 0)),
            PathCommand::QuadraticCurveTo(p(250, 700), p(500, 0)),
            PathCommand::LineTo(p(0, 0)),
        ]
    );
}

#[test]
fn outline_of_all_off_curve_contour_starts_at_midpoint() {
    let font = sample_font();
    let g = font.glyph(2).unwrap();
    let cmds = outline_path(&g).unwrap();
    let p = |x: i64, y: i64| PathPoint { hx: 2 * x, hy: 2 * y };
    assert_eq!(cmds.len(), 4 + 5);
    assert_eq!(cmds[4], PathCommand::MoveTo(p(150, 100)));
    assert_eq!(cmds[5], PathCommand::QuadraticCurveTo(p(200, 100), p(200, 150)));
    assert_eq!(cmds[8], PathCommand::QuadraticCurveTo(p(100, 100), p(150, 100)));
}

#[test]
fn new_canvas_script() {
    assert_eq!(
        dom_new_canvas(3, 500, 700),
        "const newCanvas3 = document.createElement(\"canvas\");\nnewCanvas3.width = 500;\nnewCanvas3.height = 700;\n"
    );
}

#[test]
fn index_page_loads_script() {
    assert_eq!(
        index_html(),
        "\n<!-- Don't touch this! It's autogenerated! -->\n<html>\n    <head>\n        <meta content=\"text/html;charset=utf-8\" http-equiv=\"Content-Type\" />\n    </head>\n    <body>\n        <h1>Glyph Playground</h1>\n        <div id=\"content\"></div>\n        <script src=\"glyph.js\"></script>\n    </body>\n</html>\n"
    );
}

#[test]
fn glyph_script_draws_curve() {
    let font = sample_font();
    let g = font.glyph(1).unwrap();
    assert_eq!(
        draw_glyph_to_canvas(&g, 12).unwrap(),
        "ctx12.translate(0, newCanvas12.height - 300);\nctx12.scale(0.5, -0.5);\nctx12.beginPath()\n\
ctx12.moveTo(0, 0);\nctx12.quadraticCurveTo(250, 700, 500, 0);\n\
ctx12.closePath();\nctx12.lineWidth = 9;\nctx12.stroke();\n"
    );
}

#[test]
fn glyph_script_writes_half_units_and_closes_each_contour() {
    let font = sample_font();
    let mut list = glyphs();
    list[1] = simple_glyph(&[&[(-3, 0, false), (0, 0, false)], &[(1, 1, true)]]);
    let f2 = parse(&font_bytes(&tables(&list))).unwrap();
    let g = f2.glyph(1).unwrap();
    let js = draw_glyph_to_canvas(&g, 0).unwrap();
    assert!(js.contains("ctx0.moveTo(-1.5, 0);\n"));
    assert!(js.contains("ctx0.closePath();\nctx0.moveTo(1, 1);\n"));
    assert!(draw_glyph_to_canvas(&font.glyph(3).unwrap(), 0).is_err());
}

#[test]
fn shaper_from_font_shapes_like_new() {
    let font = sample_font();
    let a = TrueTypeFontShaper::from(&font).shape("BA");
    let b = TrueTypeFontShaper::new(&font).shape("BA");
    assert_eq!(a.len(), b.len());
    for (x, y) in a.iter().zip(b.iter()) {
        assert_eq!((x.glyph.id, x.pen_x, x.pen_y), (y.glyph.id, y.pen_x, y.pen_y));
    }
}

#[test]
fn on_curve_contour_closes_without_line_back() {
    let mut list = glyphs();
    list[1] = simple_glyph(&[&[(0, 0, true), (100, 0, true), (100, 50, true)]]);
    let font = parse(&font_bytes(&tables(&list))).unwrap();
    let g = font.glyph(1).unwrap();
    assert_eq!(
        draw_glyph_to_canvas(&g, 1).unwrap(),
        "ctx1.translate(0, newCanvas1.height - 300);\nctx1.scale(0.5, -0.5);\nctx1.beginPath()\n\
ctx1.moveTo(0, 0);\nctx1.lineTo(100, 0);\nctx1.lineTo(100, 50);\nctx1.closePath();\n\
ctx1.lineWidth = 9;\nctx1.stroke();\n"
    );
}

#[test]
fn each_contour_gets_one_move_and_one_close() {
    let font = sample_font();
    let js = draw_glyph_to_canvas(&font.glyph(0).unwrap(), 0).unwrap();
    assert_eq!(js.matches(".moveTo(").count(), 1);
    assert_eq!(js.matches(".lineTo(").count(), 3);
    assert_eq!(js.matches(".closePath();").count(), 1);
    let js2 = draw_glyph_to_canvas(&font.glyph(2).unwrap(), 0).unwrap();
    assert_eq!(js2.matches(".moveTo(").count(), 2);
    assert_eq!(js2.matches(".lineTo(").count(), 2);
    assert_eq!(js2.matches(".quadraticCurveTo(").count(), 4);
    assert_eq!(js2.matches(".closePath();").count(), 2);
}

#[test]
fn later_missing_component_is_invalid_index() {
    let mut list = glyphs();
    list[4] = compound_glyph(&[(0x0002 | 0x0020, 1, vec![0, 0]), (0x0002, 99, vec![0, 0])]);
    let font = parse(&font_bytes(&tables(&list))).unwrap();
    assert_eq!(font.glyph(4).unwrap_err(), FormatError::InvalidGlyphIndex);
}

#[test]
fn past_count_reference_is_reported_before_broken_component() {
    let mut list = glyphs();
    let mut broken = Vec::new();
    bei16(&mut broken, -2);
    broken.extend_from_slice(&[0; 8]);
    list[3] = broken;
    list[4] = compound_glyph(&[(0x0002 | 0x0020, 3, vec![0, 0]), (0x0002, 99, vec![0, 0])]);
    let font = parse(&font_bytes(&tables(&list))).unwrap();
    assert_eq!(font.glyph(3).unwrap_err(), FormatError::MalformedGlyph);
    assert_eq!(font.glyph(4).unwrap_err(), FormatError::InvalidGlyphIndex);
}
