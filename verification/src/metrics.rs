//! Fixed-layout metadata tables: `head`, `hhea` and `maxp`. Each decoder
//! locates its table through the directory, seeks there, and reads a flat
//! run of fixed-width fields.

use crate::directory::{
    lookup_offset_for_tag, spec_find_record, FontDirectoryTable, TableDirectorySubtable, TAG_HEAD,
    TAG_HHEA, TAG_MAXP,
};
use crate::error::{CapyError, ErrorCode};
use crate::parser::{be_i16_at, be_u16_at, be_u32_at, ByteParser};
use vstd::prelude::*;

verus! {

/// Global font metadata (`head`), 46 bytes of fixed-width fields.
#[derive(Clone, Copy, Debug, PartialEq, Eq)]
pub struct HeadTable {
    pub version: u32,
    pub font_revision: u32,
    pub check_sum_adjustment: u32,
    pub magic_number: u32,
    pub flags: u16,
    pub units_per_em: u16,
    pub created: u32,
    pub modified: u32,
    pub x_min: i16,
    pub y_min: i16,
    pub x_max: i16,
    pub y_max: i16,
    pub mac_style: u16,
    pub lowest_rec_ppem: u16,
    pub font_direction_hint: i16,
    pub index_to_loc_format: i16,
    pub glyph_data_format: i16,
}

/// Horizontal metrics header (`hhea`), 36 bytes of fixed-width fields.
#[derive(Clone, Copy, Debug, PartialEq, Eq)]
pub struct HheaTable {
    pub version: u32,
    pub ascent: i16,
    pub descent: i16,
    pub line_gap: i16,
    pub advance_width_max: u16,
    pub min_left_side_bearing: i16,
    pub min_right_side_bearing: i16,
    pub x_max_extent: i16,
    pub caret_slope_rise: i16,
    pub caret_slope_run: i16,
    pub caret_offset: i16,
    pub reserved: [i16; 4],
    pub metric_data_format: i16,
    pub number_of_hmetrics: u16,
}

/// Glyph and memory limits (`maxp`), 32 bytes of fixed-width fields.
/// `num_glyphs` bounds how many outlines the glyf decoder reads.
#[derive(Clone, Copy, Debug, PartialEq, Eq)]
pub struct MaxpTable {
    pub version: u32,
    pub num_glyphs: u16,
    pub max_points: u16,
    pub max_contours: u16,
    pub max_composite_points: u16,
    pub max_composite_contours: u16,
    pub max_zones: u16,
    pub max_twilight_points: u16,
    pub max_storage: u16,
    pub max_function_defs: u16,
    pub max_instruction_defs: u16,
    pub max_stack_elements: u16,
    pub max_size_of_instructions: u16,
    pub max_component_elements: u16,
    pub max_component_depth: u16,
}

/// The `head` value encoded at byte position `p`.
pub open spec fn spec_head_at(b: Seq<u8>, p: int) -> HeadTable {
    HeadTable {
        version: be_u32_at(b, p) as u32,
        font_revision: be_u32_at(b, p + 4) as u32,
        check_sum_adjustment: be_u32_at(b, p + 8) as u32,
        magic_number: be_u32_at(b, p + 12) as u32,
        flags: be_u16_at(b, p + 16) as u16,
        units_per_em: be_u16_at(b, p + 18) as u16,
        created: be_u32_at(b, p + 20) as u32,
        modified: be_u32_at(b, p + 24) as u32,
        x_min: be_i16_at(b, p + 28) as i16,
        y_min: be_i16_at(b, p + 30) as i16,
        x_max: be_i16_at(b, p + 32) as i16,
        y_max: be_i16_at(b, p + 34) as i16,
        mac_style: be_u16_at(b, p + 36) as u16,
        lowest_rec_ppem: be_u16_at(b, p + 38) as u16,
        font_direction_hint: be_i16_at(b, p + 40) as i16,
        index_to_loc_format: be_i16_at(b, p + 42) as i16,
        glyph_data_format: be_i16_at(b, p + 44) as i16,
    }
}

/// Outcome of decoding `head` through the directory: the table when its
/// record exists and its 46 bytes are in range, the error code otherwise.
pub open spec fn spec_parse_head(b: Seq<u8>, records: Seq<TableDirectorySubtable>) -> Result<
    HeadTable,
    ErrorCode,
> {
    match spec_find_record(records, TAG_HEAD) {
        None => Err(ErrorCode::NotFound),
        Some(rec) => if rec.offset + 46 > b.len() {
            Err(ErrorCode::OutOfRange)
        } else {
            Ok(spec_head_at(b, rec.offset as int))
        },
    }
}

/// `t` is the `hhea` value encoded at byte position `p`.
pub open spec fn hhea_matches(b: Seq<u8>, p: int, t: HheaTable) -> bool {
    &&& t.version == be_u32_at(b, p)
    &&& t.ascent == be_i16_at(b, p + 4)
    &&& t.descent == be_i16_at(b, p + 6)
    &&& t.line_gap == be_i16_at(b, p + 8)
    &&& t.advance_width_max == be_u16_at(b, p + 10)
    &&& t.min_left_side_bearing == be_i16_at(b, p + 12)
    &&& t.min_right_side_bearing == be_i16_at(b, p + 14)
    &&& t.x_max_extent == be_i16_at(b, p + 16)
    &&& t.caret_slope_rise == be_i16_at(b, p + 18)
    &&& t.caret_slope_run == be_i16_at(b, p + 20)
    &&& t.caret_offset == be_i16_at(b, p + 22)
    &&& forall|i: int| 0 <= i < 4 ==> t.reserved@[i] == be_i16_at(b, p + 24 + 2 * i)
    &&& t.metric_data_format == be_i16_at(b, p + 32)
    &&& t.number_of_hmetrics == be_u16_at(b, p + 34)
}

/// Outcome of locating `hhea` through the directory: the byte position of
/// its 36 fixed bytes, or the error code.
pub open spec fn spec_locate_hhea(b: Seq<u8>, records: Seq<TableDirectorySubtable>) -> Result<
    int,
    ErrorCode,
> {
    match spec_find_record(records, TAG_HHEA) {
        None => Err(ErrorCode::NotFound),
        Some(rec) => if rec.offset + 36 > b.len() {
            Err(ErrorCode::OutOfRange)
        } else {
            Ok(rec.offset as int)
        },
    }
}

/// The `maxp` value encoded at byte position `p`.
pub open spec fn spec_maxp_at(b: Seq<u8>, p: int) -> MaxpTable {
    MaxpTable {
        version: be_u32_at(b, p) as u32,
        num_glyphs: be_u16_at(b, p + 4) as u16,
        max_points: be_u16_at(b, p + 6) as u16,
        max_contours: be_u16_at(b, p + 8) as u16,
        max_composite_points: be_u16_at(b, p + 10) as u16,
        max_composite_contours: be_u16_at(b, p + 12) as u16,
        max_zones: be_u16_at(b, p + 14) as u16,
        max_twilight_points: be_u16_at(b, p + 16) as u16,
        max_storage: be_u16_at(b, p + 18) as u16,
        max_function_defs: be_u16_at(b, p + 20) as u16,
        max_instruction_defs: be_u16_at(b, p + 22) as u16,
        max_stack_elements: be_u16_at(b, p + 24) as u16,
        max_size_of_instructions: be_u16_at(b, p + 26) as u16,
        max_component_elements: be_u16_at(b, p + 28) as u16,
        max_component_depth: be_u16_at(b, p + 30) as u16,
    }
}

/// Outcome of decoding `maxp` through the directory.
pub open spec fn spec_parse_maxp(b: Seq<u8>, records: Seq<TableDirectorySubtable>) -> Result<
    MaxpTable,
    ErrorCode,
> {
    match spec_find_record(records, TAG_MAXP) {
        None => Err(ErrorCode::NotFound),
        Some(rec) => if rec.offset + 32 > b.len() {
            Err(ErrorCode::OutOfRange)
        } else {
            Ok(spec_maxp_at(b, rec.offset as int))
        },
    }
}

/// Locates `head` through the directory and decodes its fields.
pub fn parse_head_table(parser: &mut ByteParser, font_directory_table: &FontDirectoryTable) -> (r:
    Result<HeadTable, CapyError>)
    requires
        old(parser).wf(),
    ensures
        final(parser).bytes() == old(parser).bytes(),
        final(parser).wf(),
        match r {
            Ok(t) => spec_parse_head(
                old(parser).bytes(),
                font_directory_table.table_directory_subtables@,
            ) == Ok::<HeadTable, ErrorCode>(t),
            Err(e) => spec_parse_head(
                old(parser).bytes(),
                font_directory_table.table_directory_subtables@,
            ) matches Err(c) && c == e.code,
        },
{
    let head_offset = match lookup_offset_for_tag(TAG_HEAD, font_directory_table) {
        Ok(off) => off,
        Err(e) => return Err(e),
    };
    if parser.buffer.len() < 46 || head_offset > parser.buffer.len() - 46 {
        return Err(CapyError::new(ErrorCode::OutOfRange, "buffer too small for head table"));
    }
    match parser.set_offset(head_offset) {
        Ok(()) => (),
        Err(e) => return Err(e),
    }
    let version = match parser.read_be_u32() {
        Ok(v) => v,
        Err(e) => return Err(e),
    };
    let font_revision = match parser.read_be_u32() {
        Ok(v) => v,
        Err(e) => return Err(e),
    };
    let check_sum_adjustment = match parser.read_be_u32() {
        Ok(v) => v,
        Err(e) => return Err(e),
    };
    let magic_number = match parser.read_be_u32() {
        Ok(v) => v,
        Err(e) => return Err(e),
    };
    let flags = match parser.read_be_u16() {
        Ok(v) => v,
        Err(e) => return Err(e),
    };
    let units_per_em = match parser.read_be_u16() {
        Ok(v) => v,
        Err(e) => return Err(e),
    };
    let created = match parser.read_be_u32() {
        Ok(v) => v,
        Err(e) => return Err(e),
    };
    let modified = match parser.read_be_u32() {
        Ok(v) => v,
        Err(e) => return Err(e),
    };
    let x_min = match parser.read_be_i16() {
        Ok(v) => v,
        Err(e) => return Err(e),
    };
    let y_min = match parser.read_be_i16() {
        Ok(v) => v,
        Err(e) => return Err(e),
    };
    let x_max = match parser.read_be_i16() {
        Ok(v) => v,
        Err(e) => return Err(e),
    };
    let y_max = match parser.read_be_i16() {
        Ok(v) => v,
        Err(e) => return Err(e),
    };
    let mac_style = match parser.read_be_u16() {
        Ok(v) => v,
        Err(e) => return Err(e),
    };
    let lowest_rec_ppem = match parser.read_be_u16() {
        Ok(v) => v,
        Err(e) => return Err(e),
    };
    let font_direction_hint = match parser.read_be_i16() {
        Ok(v) => v,
        Err(e) => return Err(e),
    };
    let index_to_loc_format = match parser.read_be_i16() {
        Ok(v) => v,
        Err(e) => return Err(e),
    };
    let glyph_data_format = match parser.read_be_i16() {
        Ok(v) => v,
        Err(e) => return Err(e),
    };
    Ok(
        HeadTable {
            version,
            font_revision,
            check_sum_adjustment,
            magic_number,
            flags,
            units_per_em,
            created,
            modified,
            x_min,
            y_min,
            x_max,
            y_max,
            mac_style,
            lowest_rec_ppem,
            font_direction_hint,
            index_to_loc_format,
            glyph_data_format,
        },
    )
}

/// Locates `hhea` through the directory and decodes its fields.
pub fn parse_hhea_table(parser: &mut ByteParser, font_directory_table: &FontDirectoryTable) -> (r:
    Result<HheaTable, CapyError>)
    requires
        old(parser).wf(),
    ensures
        final(parser).bytes() == old(parser).bytes(),
        final(parser).wf(),
        match r {
            Ok(t) => {
                &&& spec_locate_hhea(
                    old(parser).bytes(),
                    font_directory_table.table_directory_subtables@,
                ) matches Ok(p) && hhea_matches(old(parser).bytes(), p, t)
            },
            Err(e) => spec_locate_hhea(
                old(parser).bytes(),
                font_directory_table.table_directory_subtables@,
            ) matches Err(c) && c == e.code,
        },
{
    let hhea_offset = match lookup_offset_for_tag(TAG_HHEA, font_directory_table) {
        Ok(off) => off,
        Err(e) => return Err(e),
    };
    if parser.buffer.len() < 36 || hhea_offset > parser.buffer.len() - 36 {
        return Err(CapyError::new(ErrorCode::OutOfRange, "buffer too small for hhea table"));
    }
    match parser.set_offset(hhea_offset) {
        Ok(()) => (),
        Err(e) => return Err(e),
    }
    let version = match parser.read_be_u32() {
        Ok(v) => v,
        Err(e) => return Err(e),
    };
    let ascent = match parser.read_be_i16() {
        Ok(v) => v,
        Err(e) => return Err(e),
    };
    let descent = match parser.read_be_i16() {
        Ok(v) => v,
        Err(e) => return Err(e),
    };
    let line_gap = match parser.read_be_i16() {
        Ok(v) => v,
        Err(e) => return Err(e),
    };
    let advance_width_max = match parser.read_be_u16() {
        Ok(v) => v,
        Err(e) => return Err(e),
    };
    let min_left_side_bearing = match parser.read_be_i16() {
        Ok(v) => v,
        Err(e) => return Err(e),
    };
    let min_right_side_bearing = match parser.read_be_i16() {
        Ok(v) => v,
        Err(e) => return Err(e),
    };
    let x_max_extent = match parser.read_be_i16() {
        Ok(v) => v,
        Err(e) => return Err(e),
    };
    let caret_slope_rise = match parser.read_be_i16() {
        Ok(v) => v,
        Err(e) => return Err(e),
    };
    let caret_slope_run = match parser.read_be_i16() {
        Ok(v) => v,
        Err(e) => return Err(e),
    };
    let caret_offset = match parser.read_be_i16() {
        Ok(v) => v,
        Err(e) => return Err(e),
    };
    let reserved = match parser.read_be_i16_array_4() {
        Ok(v) => v,
        Err(e) => return Err(e),
    };
    let metric_data_format = match parser.read_be_i16() {
        Ok(v) => v,
        Err(e) => return Err(e),
    };
    let number_of_hmetrics = match parser.read_be_u16() {
        Ok(v) => v,
        Err(e) => return Err(e),
    };
    Ok(
        HheaTable {
            version,
            ascent,
            descent,
            line_gap,
            advance_width_max,
            min_left_side_bearing,
            min_right_side_bearing,
            x_max_extent,
            caret_slope_rise,
            caret_slope_run,
            caret_offset,
            reserved,
            metric_data_format,
            number_of_hmetrics,
        },
    )
}

/// Locates `maxp` through the directory and decodes its fields.
pub fn parse_maxp_table(parser: &mut ByteParser, font_directory_table: &FontDirectoryTable) -> (r:
    Result<MaxpTable, CapyError>)
    requires
        old(parser).wf(),
    ensures
        final(parser).bytes() == old(parser).bytes(),
        final(parser).wf(),
        match r {
            Ok(t) => spec_parse_maxp(
                old(parser).bytes(),
                font_directory_table.table_directory_subtables@,
            ) == Ok::<MaxpTable, ErrorCode>(t),
            Err(e) => spec_parse_maxp(
                old(parser).bytes(),
                font_directory_table.table_directory_subtables@,
            ) matches Err(c) && c == e.code,
        },
{
    let maxp_offset = match lookup_offset_for_tag(TAG_MAXP, font_directory_table) {
        Ok(off) => off,
        Err(e) => return Err(e),
    };
    if parser.buffer.len() < 32 || maxp_offset > parser.buffer.len() - 32 {
        return Err(CapyError::new(ErrorCode::OutOfRange, "buffer too small for maxp table"));
    }
    match parser.set_offset(maxp_offset) {
        Ok(()) => (),
        Err(e) => return Err(e),
    }
    let version = match parser.read_be_u32() {
        Ok(v) => v,
        Err(e) => return Err(e),
    };
    let num_glyphs = match parser.read_be_u16() {
        Ok(v) => v,
        Err(e) => return Err(e),
    };
    let max_points = match parser.read_be_u16() {
        Ok(v) => v,
        Err(e) => return Err(e),
    };
    let max_contours = match parser.read_be_u16() {
        Ok(v) => v,
        Err(e) => return Err(e),
    };
    let max_composite_points = match parser.read_be_u16() {
        Ok(v) => v,
        Err(e) => return Err(e),
    };
    let max_composite_contours = match parser.read_be_u16() {
        Ok(v) => v,
        Err(e) => return Err(e),
    };
    let max_zones = match parser.read_be_u16() {
        Ok(v) => v,
        Err(e) => return Err(e),
    };
    let max_twilight_points = match parser.read_be_u16() {
        Ok(v) => v,
        Err(e) => return Err(e),
    };
    let max_storage = match parser.read_be_u16() {
        Ok(v) => v,
        Err(e) => return Err(e),
    };
    let max_function_defs = match parser.read_be_u16() {
        Ok(v) => v,
        Err(e) => return Err(e),
    };
    let max_instruction_defs = match parser.read_be_u16() {
        Ok(v) => v,
        Err(e) => return Err(e),
    };
    let max_stack_elements = match parser.read_be_u16() {
        Ok(v) => v,
        Err(e) => return Err(e),
    };
    let max_size_of_instructions = match parser.read_be_u16() {
        Ok(v) => v,
        Err(e) => return Err(e),
    };
    let max_component_elements = match parser.read_be_u16() {
        Ok(v) => v,
        Err(e) => return Err(e),
    };
    let max_component_depth = match parser.read_be_u16() {
        Ok(v) => v,
        Err(e) => return Err(e),
    };
    Ok(
        MaxpTable {
            version,
            num_glyphs,
            max_points,
            max_contours,
            max_composite_points,
            max_composite_contours,
            max_zones,
            max_twilight_points,
            max_storage,
            max_function_defs,
            max_instruction_defs,
            max_stack_elements,
            max_size_of_instructions,
            max_component_elements,
            max_component_depth,
        },
    )
}

} // verus!
