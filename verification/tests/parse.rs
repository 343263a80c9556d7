//! End-to-end decoding tests over hand-built sfnt buffers.

use capyfont::cmap::CmapSubtable;
use capyfont::directory::{
    lookup_offset_for_tag, FontDirectoryTable, OffsetSubtable, TableDirectorySubtable, TAG_CMAP,
    TAG_GLYF, TAG_HEAD, TAG_HHEA, TAG_LOCA, TAG_MAXP,
};
use capyfont::error::ErrorCode;
use capyfont::font::parse_font;
use capyfont::glyf::{parse_glyf_table, parse_glyph_subtable, GlyphOutline};
use capyfont::parser::ByteParser;

fn push_u16(buf: &mut Vec<u8>, v: u16) {
    buf.extend_from_slice(&v.to_be_bytes());
}

fn push_u32(buf: &mut Vec<u8>, v: u32) {
    buf.extend_from_slice(&v.to_be_bytes());
}

fn push_i16(buf: &mut Vec<u8>, v: i16) {
    buf.extend_from_slice(&v.to_be_bytes());
}

/// Builds an sfnt buffer: offset header, directory records in the given
/// order, then the table payloads packed back to back.
fn assemble(tables: &[(u32, Vec<u8>)]) -> Vec<u8> {
    let mut buf = Vec::new();
    push_u32(&mut buf, 0x0001_0000);
    push_u16(&mut buf, tables.len() as u16);
    push_u16(&mut buf, 0);
    push_u16(&mut buf, 0);
    push_u16(&mut buf, 0);
    let mut offset = 12 + 16 * tables.len();
    for (tag, bytes) in tables {
        push_u32(&mut buf, *tag);
        push_u32(&mut buf, 0);
        push_u32(&mut buf, offset as u32);
        push_u32(&mut buf, bytes.len() as u32);
        offset += bytes.len();
    }
    for (_, bytes) in tables {
        buf.extend_from_slice(bytes);
    }
    buf
}

fn head_payload(units_per_em: u16, index_to_loc_format: i16) -> Vec<u8> {
    let mut t = Vec::new();
    push_u32(&mut t, 0x0001_0000); // version
    push_u32(&mut t, 0x0002_0000); // font_revision
    push_u32(&mut t, 0xDEAD_BEEF); // check_sum_adjustment
    push_u32(&mut t, 0x5F0F_3CF5); // magic_number
    push_u16(&mut t, 0); // flags
    push_u16(&mut t, units_per_em);
    push_u32(&mut t, 11); // created
    push_u32(&mut t, 22); // modified
    push_i16(&mut t, -100); // x_min
    push_i16(&mut t, -200); // y_min
    push_i16(&mut t, 300); // x_max
    push_i16(&mut t, 400); // y_max
    push_u16(&mut t, 0); // mac_style
    push_u16(&mut t, 8); // lowest_rec_ppem
    push_i16(&mut t, 2); // font_direction_hint
    push_i16(&mut t, index_to_loc_format);
    push_i16(&mut t, 0); // glyph_data_format
    t
}

fn hhea_payload(ascent: i16, descent: i16) -> Vec<u8> {
    let mut t = Vec::new();
    push_u32(&mut t, 0x0001_0000);
    push_i16(&mut t, ascent);
    push_i16(&mut t, descent);
    push_i16(&mut t, 10); // line_gap
    push_u16(&mut t, 1200); // advance_width_max
    push_i16(&mut t, -5); // min_left_side_bearing
    push_i16(&mut t, -6); // min_right_side_bearing
    push_i16(&mut t, 900); // x_max_extent
    push_i16(&mut t, 1); // caret_slope_rise
    push_i16(&mut t, 0); // caret_slope_run
    push_i16(&mut t, 0); // caret_offset
    for _ in 0..4 {
        push_i16(&mut t, 0); // reserved
    }
    push_i16(&mut t, 0); // metric_data_format
    push_u16(&mut t, 2); // number_of_hmetrics
    t
}

fn maxp_payload(num_glyphs: u16) -> Vec<u8> {
    let mut t = Vec::new();
    push_u32(&mut t, 0x0001_0000);
    push_u16(&mut t, num_glyphs);
    for _ in 0..13 {
        push_u16(&mut t, 0);
    }
    t
}

/// A cmap with one encoding record pointing at a format-0 subtable whose
/// glyph index array maps `code` to `glyph` and everything else to 0.
fn cmap_format0_payload(code: u8, glyph: u8) -> Vec<u8> {
    let mut t = Vec::new();
    push_u16(&mut t, 0); // version
    push_u16(&mut t, 1); // num_subtables
    push_u16(&mut t, 0); // platform_id
    push_u16(&mut t, 3); // platform_specific_id
    push_u32(&mut t, 12); // subtable offset from cmap start
    push_u16(&mut t, 0); // format
    push_u16(&mut t, 262); // length
    push_u16(&mut t, 0); // language
    let mut arr = [0u8; 256];
    arr[code as usize] = glyph;
    t.extend_from_slice(&arr);
    t
}

/// A cmap with one encoding record pointing at a format-4 subtable built
/// from the given parallel segment arrays and trailing glyph ids.
fn cmap_format4_payload(
    end_code: &[u16],
    start_code: &[u16],
    id_delta: &[u16],
    id_range_offset: &[u16],
    glyph_ids: &[u16],
) -> Vec<u8> {
    let seg = end_code.len() as u16;
    let length = 16 + 8 * seg + 2 * glyph_ids.len() as u16;
    let mut t = Vec::new();
    push_u16(&mut t, 0); // version
    push_u16(&mut t, 1); // num_subtables
    push_u16(&mut t, 3); // platform_id
    push_u16(&mut t, 1); // platform_specific_id
    push_u32(&mut t, 12); // subtable offset from cmap start
    push_u16(&mut t, 4); // format
    push_u16(&mut t, length);
    push_u16(&mut t, 0); // language
    push_u16(&mut t, 2 * seg); // seg_count_x2
    push_u16(&mut t, 4); // search_range
    push_u16(&mut t, 1); // entry_selector
    push_u16(&mut t, 0); // range_shift
    for &v in end_code {
        push_u16(&mut t, v);
    }
    push_u16(&mut t, 0); // reserved_pad
    for &v in start_code {
        push_u16(&mut t, v);
    }
    for &v in id_delta {
        push_u16(&mut t, v);
    }
    for &v in id_range_offset {
        push_u16(&mut t, v);
    }
    for &v in glyph_ids {
        push_u16(&mut t, v);
    }
    t
}

/// A simple one-contour glyph with three points. The single flag byte
/// repeats twice, so the expanded flags are three copies of 0x36: x and y
/// deltas are positive bytes. x deltas 1,2,3 and y deltas 4,0,1.
fn simple_glyph_payload() -> Vec<u8> {
    let mut g = Vec::new();
    push_i16(&mut g, 1); // number_of_contours
    push_i16(&mut g, -7); // x_min
    push_i16(&mut g, -8); // y_min
    push_i16(&mut g, 70); // x_max
    push_i16(&mut g, 80); // y_max
    push_u16(&mut g, 2); // end point of the single contour
    push_u16(&mut g, 0); // instruction_length
    g.push(0x3E); // flags: x byte, y byte, both positive, repeat
    g.push(2); // repeat count
    g.extend_from_slice(&[1, 2, 3]); // x deltas
    g.extend_from_slice(&[4, 0, 1]); // y deltas
    g
}

/// Ten-byte header of a compound glyph: contour count -1 and a bounding
/// box; the body is not decoded.
fn compound_glyph_payload() -> Vec<u8> {
    let mut g = Vec::new();
    push_i16(&mut g, -1);
    push_i16(&mut g, 1);
    push_i16(&mut g, 2);
    push_i16(&mut g, 3);
    push_i16(&mut g, 4);
    g
}

/// Short-format loca: each entry is half the byte offset.
fn loca_payload_short(offsets: &[u32]) -> Vec<u8> {
    let mut t = Vec::new();
    for &o in offsets {
        push_u16(&mut t, (o / 2) as u16);
    }
    t
}

/// A complete two-glyph font: glyph 0 compound, glyph 1 simple, a
/// format-0 cmap mapping 'a' (97) to glyph 5, and fixed metrics.
fn two_glyph_font() -> Vec<u8> {
    let glyph0 = compound_glyph_payload();
    let glyph1 = simple_glyph_payload();
    let g0_len = glyph0.len() as u32;
    let g1_end = g0_len + glyph1.len() as u32;
    let mut glyf = glyph0;
    glyf.extend_from_slice(&glyph1);
    assemble(&[
        (TAG_CMAP, cmap_format0_payload(97, 5)),
        (TAG_GLYF, glyf),
        (TAG_HEAD, head_payload(1000, 0)),
        (TAG_HHEA, hhea_payload(750, -250)),
        (TAG_LOCA, loca_payload_short(&[0, g0_len, g1_end])),
        (TAG_MAXP, maxp_payload(2)),
    ])
}

fn directory_of(buf: &[u8]) -> FontDirectoryTable {
    let mut parser = ByteParser::new(buf);
    capyfont::directory::parse_font_directory_table(&mut parser).unwrap()
}

// ---- byte cursor ----

#[test]
fn cursor_reads_big_endian_values() {
    let data = [0x12u8, 0x34, 0x56, 0x78];
    let mut p = ByteParser::new(&data);
    assert_eq!(p.read_be_u16().unwrap(), 0x1234);
    assert_eq!(p.read_be_u16().unwrap(), 0x5678);
    let mut p = ByteParser::new(&data);
    assert_eq!(p.read_be_u32().unwrap(), 0x1234_5678);
}

#[test]
fn cursor_reads_signed_values() {
    let data = [0xFFu8, 0xFE, 0x7F, 0xFF, 0x80, 0x00, 0x00, 0x2A];
    let mut p = ByteParser::new(&data);
    assert_eq!(p.read_be_i16().unwrap(), -2);
    assert_eq!(p.read_be_i16().unwrap(), 32767);
    assert_eq!(p.read_be_i16().unwrap(), -32768);
    assert_eq!(p.read_be_i16().unwrap(), 42);
    let mut p = ByteParser::new(&data);
    let arr = p.read_be_i16_array_4().unwrap();
    assert_eq!(arr, [-2, 32767, -32768, 42]);
}

#[test]
fn cursor_truncated_reads_fail_with_out_of_range() {
    let data = [0xABu8, 0xCD, 0xEF];
    let mut p = ByteParser::new(&data);
    assert!(matches!(p.read_be_u32(), Err(e) if matches!(e.code, ErrorCode::OutOfRange)));
    // a failed read leaves the position alone: the next read still works
    assert_eq!(p.read_be_u16().unwrap(), 0xABCD);
    assert!(matches!(p.read_be_u16(), Err(e) if matches!(e.code, ErrorCode::OutOfRange)));
    assert_eq!(p.read_be_u8().unwrap(), 0xEF);
    assert!(matches!(p.read_be_u8(), Err(e) if matches!(e.code, ErrorCode::OutOfRange)));
}

#[test]
fn cursor_empty_buffer_fails_every_read() {
    let data: [u8; 0] = [];
    let mut p = ByteParser::new(&data);
    assert!(matches!(p.read_be_u8(), Err(e) if matches!(e.code, ErrorCode::OutOfRange)));
    assert!(matches!(p.read_be_u16(), Err(e) if matches!(e.code, ErrorCode::OutOfRange)));
    assert!(matches!(p.read_be_u32(), Err(e) if matches!(e.code, ErrorCode::OutOfRange)));
    assert!(matches!(p.read_be_i16(), Err(e) if matches!(e.code, ErrorCode::OutOfRange)));
    assert!(matches!(p.read_u8_array_256(), Err(e) if matches!(e.code, ErrorCode::OutOfRange)));
    assert!(matches!(p.read_be_i16_array_4(), Err(e) if matches!(e.code, ErrorCode::OutOfRange)));
}

#[test]
fn cursor_seek_to_end_is_legal_but_not_past_it() {
    let data = [1u8, 2, 3];
    let mut p = ByteParser::new(&data);
    assert!(p.set_offset(3).is_ok());
    assert!(matches!(p.read_be_u8(), Err(e) if matches!(e.code, ErrorCode::OutOfRange)));
    assert!(matches!(p.set_offset(4), Err(e) if matches!(e.code, ErrorCode::OutOfRange)));
}

#[test]
fn cursor_reads_fixed_byte_array() {
    let mut data = Vec::new();
    for i in 0..300u32 {
        data.push((i % 251) as u8);
    }
    let mut p = ByteParser::new(&data);
    p.set_offset(10).unwrap();
    let arr = p.read_u8_array_256().unwrap();
    assert_eq!(arr.len(), 256);
    assert_eq!(arr[0], 10);
    assert_eq!(arr[255], (265 % 251) as u8);
}

// ---- table directory ----

#[test]
fn find_table_returns_recorded_offset() {
    let buf = two_glyph_font();
    let dir = directory_of(&buf);
    assert_eq!(dir.offset_subtable.num_tables, 6);
    let cmap_off = dir.find_table(TAG_CMAP).unwrap();
    assert_eq!(cmap_off, 12 + 16 * 6);
    let head_off = lookup_offset_for_tag(TAG_HEAD, &dir).unwrap();
    // cmap is 274 bytes, glyf 32 bytes
    assert_eq!(head_off, 12 + 16 * 6 + 274 + 32);
}

#[test]
fn find_table_missing_tag_is_not_found() {
    let buf = two_glyph_font();
    let dir = directory_of(&buf);
    let kern = 0x6B65726E; // a tag no record carries
    assert!(matches!(dir.find_table(kern), Err(e) if matches!(e.code, ErrorCode::NotFound)));
}

#[test]
fn truncated_directory_is_out_of_range() {
    let buf = two_glyph_font();
    let mut parser = ByteParser::new(&buf[..40]);
    let r = capyfont::directory::parse_font_directory_table(&mut parser);
    assert!(matches!(r, Err(e) if matches!(e.code, ErrorCode::OutOfRange)));
}

// ---- cmap ----

#[test]
fn format0_maps_a_to_glyph_5() {
    let buf = two_glyph_font();
    let font = parse_font(&buf).unwrap();
    assert_eq!(font.cmap_table.map_codepoint(97), Some(5));
    assert_eq!(font.cmap_table.map_codepoint(98), Some(0));
    assert_eq!(font.cmap_table.map_codepoint(256), None);
}

#[test]
fn format4_delta_segment_lookup() {
    // one real segment [97, 97] mapped by delta to glyph 5, then the
    // closing 0xFFFF segment
    let cmap = cmap_format4_payload(
        &[97, 0xFFFF],
        &[97, 0xFFFF],
        &[0xFFA4, 1],
        &[0, 0],
        &[],
    );
    let buf = assemble(&[(TAG_CMAP, cmap)]);
    let dir = directory_of(&buf);
    let mut parser = ByteParser::new(&buf);
    let table = capyfont::cmap::parse_cmap_table(&mut parser, &dir).unwrap();
    let four = match &table.subtable {
        Some(CmapSubtable::FormatFour(q)) => q,
        other => panic!("expected a format-4 subtable, got {:?}", other),
    };
    assert_eq!(four.seg_count_x2, 4);
    assert_eq!(four.end_code, vec![97, 0xFFFF]);
    assert_eq!(four.start_code, vec![97, 0xFFFF]);
    assert!(four.is_well_ordered());
    assert_eq!(table.map_codepoint(97), Some(5));
    // below the segment start the code point is unmapped
    assert_eq!(table.map_codepoint(96), None);
}

#[test]
fn format4_range_offset_lookup() {
    // segment [32, 34]: id_range_offset 4 points two entries ahead, into
    // glyph_id_array[0]; entry 0 holds glyph 7, entry 1 is the missing
    // glyph, entry 2 holds glyph 9
    let cmap = cmap_format4_payload(
        &[34, 0xFFFF],
        &[32, 0xFFFF],
        &[0, 1],
        &[4, 0],
        &[7, 0, 9],
    );
    let buf = assemble(&[(TAG_CMAP, cmap)]);
    let dir = directory_of(&buf);
    let mut parser = ByteParser::new(&buf);
    let table = capyfont::cmap::parse_cmap_table(&mut parser, &dir).unwrap();
    assert_eq!(table.map_codepoint(32), Some(7));
    assert_eq!(table.map_codepoint(33), None);
    assert_eq!(table.map_codepoint(34), Some(9));
    assert_eq!(table.map_codepoint(31), None);
}

#[test]
fn format4_parallel_arrays_share_seg_count() {
    let cmap = cmap_format4_payload(
        &[10, 20, 0xFFFF],
        &[5, 15, 0xFFFF],
        &[1, 2, 3],
        &[0, 0, 0],
        &[11, 12],
    );
    let buf = assemble(&[(TAG_CMAP, cmap)]);
    let dir = directory_of(&buf);
    let mut parser = ByteParser::new(&buf);
    let table = capyfont::cmap::parse_cmap_table(&mut parser, &dir).unwrap();
    let four = match table.subtable {
        Some(CmapSubtable::FormatFour(q)) => q,
        other => panic!("expected a format-4 subtable, got {:?}", other),
    };
    let seg = (four.seg_count_x2 / 2) as usize;
    assert_eq!(four.seg_count_x2 % 2, 0);
    assert_eq!(four.end_code.len(), seg);
    assert_eq!(four.start_code.len(), seg);
    assert_eq!(four.id_delta.len(), seg);
    assert_eq!(four.id_range_offset.len(), seg);
    assert_eq!(four.glyph_id_array.len(), 2);
    assert!(four.is_well_ordered());
}

#[test]
fn cmap_without_encoding_records_maps_nothing() {
    let mut cmap = Vec::new();
    push_u16(&mut cmap, 0); // version
    push_u16(&mut cmap, 0); // num_subtables
    let buf = assemble(&[(TAG_CMAP, cmap)]);
    let dir = directory_of(&buf);
    let mut parser = ByteParser::new(&buf);
    let table = capyfont::cmap::parse_cmap_table(&mut parser, &dir).unwrap();
    assert_eq!(table.num_subtables, 0);
    assert!(table.subtable.is_none());
    assert_eq!(table.map_codepoint(97), None);
}

#[test]
fn last_encoding_record_decides_the_subtable() {
    // two records: a format-4 subtable first, then a format-0 one; the
    // subtable named by the last record wins
    let mut cmap = Vec::new();
    push_u16(&mut cmap, 0); // version
    push_u16(&mut cmap, 2); // num_subtables
    push_u16(&mut cmap, 3);
    push_u16(&mut cmap, 1);
    push_u32(&mut cmap, 20); // first record: format 4 at offset 20
    push_u16(&mut cmap, 1);
    push_u16(&mut cmap, 0);
    push_u32(&mut cmap, 52); // second record: format 0 at offset 52
    // format-4 subtable, 32 bytes, at cmap offset 20
    push_u16(&mut cmap, 4);
    push_u16(&mut cmap, 32);
    push_u16(&mut cmap, 0);
    push_u16(&mut cmap, 4); // seg_count_x2
    push_u16(&mut cmap, 4);
    push_u16(&mut cmap, 1);
    push_u16(&mut cmap, 0);
    for &v in &[97u16, 0xFFFF] {
        push_u16(&mut cmap, v);
    }
    push_u16(&mut cmap, 0);
    for &v in &[97u16, 0xFFFF, 0xFFA4, 1, 0, 0] {
        push_u16(&mut cmap, v);
    }
    // format-0 subtable at cmap offset 52
    push_u16(&mut cmap, 0);
    push_u16(&mut cmap, 262);
    push_u16(&mut cmap, 0);
    let mut arr = [0u8; 256];
    arr[97] = 31;
    cmap.extend_from_slice(&arr);
    let buf = assemble(&[(TAG_CMAP, cmap)]);
    let dir = directory_of(&buf);
    let mut parser = ByteParser::new(&buf);
    let table = capyfont::cmap::parse_cmap_table(&mut parser, &dir).unwrap();
    assert!(matches!(table.subtable, Some(CmapSubtable::FormatZero(_))));
    assert_eq!(table.map_codepoint(97), Some(31));
}

#[test]
fn unsupported_cmap_format_is_unimplemented() {
    // an encoding record pointing at a format-6 subtable
    let mut cmap = Vec::new();
    push_u16(&mut cmap, 0);
    push_u16(&mut cmap, 1);
    push_u16(&mut cmap, 0);
    push_u16(&mut cmap, 3);
    push_u32(&mut cmap, 12);
    push_u16(&mut cmap, 6); // format 6 has no decoder
    push_u16(&mut cmap, 0);
    let buf = assemble(&[(TAG_CMAP, cmap)]);
    let r = parse_font(&buf);
    assert!(matches!(r, Err(e) if matches!(e.code, ErrorCode::Unimplemented)));
}

#[test]
fn truncated_cmap_subtable_is_out_of_range() {
    // format-0 subtable cut off in the middle of its index array
    let mut buf = two_glyph_font();
    buf.truncate(12 + 16 * 6 + 100);
    let mut parser = ByteParser::new(&buf);
    let dir_src = two_glyph_font();
    let dir = directory_of(&dir_src);
    let r = capyfont::cmap::parse_cmap_table(&mut parser, &dir);
    assert!(matches!(r, Err(e) if matches!(e.code, ErrorCode::OutOfRange)));
}

// ---- glyf ----

#[test]
fn simple_glyph_flags_expand_to_point_count() {
    let g = simple_glyph_payload();
    let mut parser = ByteParser::new(&g);
    let glyph = parse_glyph_subtable(&mut parser).unwrap();
    let simple = match glyph {
        GlyphOutline::Simple(s) => s,
        other => panic!("expected a simple glyph, got {:?}", other),
    };
    assert_eq!(simple.number_of_contours, 1);
    assert_eq!(simple.end_pts_of_contours, vec![2]);
    // run-length expansion: one flag byte with repeat count 2 covers all
    // three points
    assert_eq!(
        simple.flags.len(),
        *simple.end_pts_of_contours.last().unwrap() as usize + 1
    );
    assert_eq!(simple.flags, vec![0x3E, 0x3E, 0x3E]);
}

#[test]
fn coordinate_deltas_fold_into_absolute_positions() {
    let g = simple_glyph_payload();
    let mut parser = ByteParser::new(&g);
    let glyph = parse_glyph_subtable(&mut parser).unwrap();
    let simple = match glyph {
        GlyphOutline::Simple(s) => s,
        other => panic!("expected a simple glyph, got {:?}", other),
    };
    assert_eq!(simple.x_coordinates, vec![1, 3, 6]);
    assert_eq!(simple.y_coordinates, vec![4, 4, 5]);
}

#[test]
fn repeated_decode_of_same_glyph_bytes_agrees() {
    let g = simple_glyph_payload();
    let mut first_parser = ByteParser::new(&g);
    let first = parse_glyph_subtable(&mut first_parser).unwrap();
    let mut second_parser = ByteParser::new(&g);
    let second = parse_glyph_subtable(&mut second_parser).unwrap();
    assert_eq!(first, second);
}

#[test]
fn overlong_flag_repeat_is_invalid_argument() {
    // two points, but the flag byte repeats five more times
    let mut g = Vec::new();
    push_i16(&mut g, 1);
    for _ in 0..4 {
        push_i16(&mut g, 0);
    }
    push_u16(&mut g, 1); // end point 1: two points
    push_u16(&mut g, 0); // no instructions
    g.push(0x3E);
    g.push(5);
    let mut parser = ByteParser::new(&g);
    let r = parse_glyph_subtable(&mut parser);
    assert!(matches!(r, Err(e) if matches!(e.code, ErrorCode::InvalidArgument)));
}

#[test]
fn compound_glyph_is_classified_and_decoding_continues() {
    let buf = two_glyph_font();
    let font = parse_font(&buf).unwrap();
    assert_eq!(font.glyf_table.glyphs.len(), 2);
    let compound = match &font.glyf_table.glyphs[0] {
        GlyphOutline::Compound(c) => c,
        other => panic!("expected a compound glyph, got {:?}", other),
    };
    assert_eq!(compound.number_of_contours, -1);
    assert_eq!((compound.x_min, compound.y_min), (1, 2));
    assert!(matches!(&font.glyf_table.glyphs[1], GlyphOutline::Simple(_)));
}

#[test]
fn zero_contour_glyph_has_no_points() {
    let mut g = Vec::new();
    push_i16(&mut g, 0); // no contours
    for _ in 0..4 {
        push_i16(&mut g, 0);
    }
    push_u16(&mut g, 0); // no instructions
    let mut parser = ByteParser::new(&g);
    let glyph = parse_glyph_subtable(&mut parser).unwrap();
    let simple = match glyph {
        GlyphOutline::Simple(s) => s,
        other => panic!("expected a simple glyph, got {:?}", other),
    };
    assert!(simple.end_pts_of_contours.is_empty());
    assert!(simple.flags.is_empty());
    assert!(simple.x_coordinates.is_empty());
    assert!(simple.y_coordinates.is_empty());
}

#[test]
fn truncated_glyph_coordinates_are_out_of_range() {
    let mut g = simple_glyph_payload();
    g.truncate(g.len() - 2); // cut into the y deltas
    let mut parser = ByteParser::new(&g);
    let r = parse_glyph_subtable(&mut parser);
    assert!(matches!(r, Err(e) if matches!(e.code, ErrorCode::OutOfRange)));
}

#[test]
fn missing_glyf_record_is_not_found() {
    // loca is present and readable, the glyf record is absent
    let buf = assemble(&[(TAG_LOCA, loca_payload_short(&[0]))]);
    let dir = directory_of(&buf);
    let mut parser = ByteParser::new(&buf);
    let r = parse_glyf_table(&mut parser, &dir, 0, 0);
    assert!(matches!(r, Err(e) if matches!(e.code, ErrorCode::NotFound)));
}

#[test]
fn unknown_loca_format_is_invalid_argument() {
    let buf = two_glyph_font();
    let dir = directory_of(&buf);
    let mut parser = ByteParser::new(&buf);
    let r = parse_glyf_table(&mut parser, &dir, 2, 2);
    assert!(matches!(r, Err(e) if matches!(e.code, ErrorCode::InvalidArgument)));
}

#[test]
fn long_loca_format_addresses_glyphs() {
    // same two glyphs, but loca in the long (u32) format
    let glyph0 = compound_glyph_payload();
    let glyph1 = simple_glyph_payload();
    let g0_len = glyph0.len() as u32;
    let g1_end = g0_len + glyph1.len() as u32;
    let mut glyf = glyph0;
    glyf.extend_from_slice(&glyph1);
    let mut loca = Vec::new();
    push_u32(&mut loca, 0);
    push_u32(&mut loca, g0_len);
    push_u32(&mut loca, g1_end);
    let buf = assemble(&[
        (TAG_CMAP, cmap_format0_payload(97, 5)),
        (TAG_GLYF, glyf),
        (TAG_HEAD, head_payload(1000, 1)),
        (TAG_HHEA, hhea_payload(750, -250)),
        (TAG_LOCA, loca),
        (TAG_MAXP, maxp_payload(2)),
    ]);
    let font = parse_font(&buf).unwrap();
    assert_eq!(font.glyf_table.glyphs.len(), 2);
    assert!(matches!(&font.glyf_table.glyphs[1], GlyphOutline::Simple(_)));
}

// ---- whole font ----

#[test]
fn parse_font_reads_head_fields_from_buffer() {
    let buf = two_glyph_font();
    let font = parse_font(&buf).unwrap();
    assert_eq!(font.head_table.units_per_em, 1000);
    assert_eq!(font.head_table.magic_number, 0x5F0F_3CF5);
    assert_eq!(font.head_table.x_min, -100);
    assert_eq!(font.head_table.y_max, 400);
    assert_eq!(font.head_table.index_to_loc_format, 0);
    assert_eq!(font.hhea_table.ascent, 750);
    assert_eq!(font.hhea_table.descent, -250);
    assert_eq!(font.hhea_table.number_of_hmetrics, 2);
    assert_eq!(font.maxp_table.num_glyphs, 2);
    assert_eq!(font.font_directory_table.offset_subtable.scalar_type, 0x0001_0000);
}

#[test]
fn parse_font_without_cmap_is_not_found() {
    let buf = assemble(&[(TAG_HEAD, head_payload(1000, 0))]);
    let r = parse_font(&buf);
    assert!(matches!(r, Err(e) if matches!(e.code, ErrorCode::NotFound)));
}

#[test]
fn parse_font_of_truncated_buffer_is_out_of_range() {
    let buf = two_glyph_font();
    for cut in [0usize, 5, 11, 40, 100] {
        let r = parse_font(&buf[..cut]);
        assert!(
            matches!(r, Err(e) if matches!(e.code, ErrorCode::OutOfRange)),
            "cut at {} should fail with OutOfRange",
            cut
        );
    }
}

#[test]
fn head_record_pointing_past_the_buffer_is_out_of_range() {
    let mut buf = two_glyph_font();
    // the head record is the third one; its offset field starts 8 bytes in
    let off_field = 12 + 16 * 2 + 8;
    buf[off_field..off_field + 4].copy_from_slice(&0xFFFF_FF00u32.to_be_bytes());
    let r = parse_font(&buf);
    assert!(matches!(r, Err(e) if matches!(e.code, ErrorCode::OutOfRange)));
}

#[test]
fn hand_built_directory_lookup() {
    // a directory built directly, without going through parsing
    let dir = FontDirectoryTable {
        offset_subtable: OffsetSubtable {
            scalar_type: 0x0001_0000,
            num_tables: 2,
            search_range: 0,
            entry_selector: 0,
            range_shift: 0,
        },
        table_directory_subtables: vec![
            TableDirectorySubtable { tag: TAG_HEAD, check_sum: 0, offset: 44, length: 46 },
            TableDirectorySubtable { tag: TAG_MAXP, check_sum: 0, offset: 90, length: 32 },
        ],
    };
    assert_eq!(dir.find_table(TAG_MAXP).unwrap(), 90);
    assert!(matches!(dir.find_table(TAG_GLYF), Err(e) if matches!(e.code, ErrorCode::NotFound)));
    assert!(matches!(dir.find_table(TAG_HHEA), Err(e) if matches!(e.code, ErrorCode::NotFound)));
}
