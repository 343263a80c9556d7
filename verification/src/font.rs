//! Font assembly: runs the table decoders in dependency order over one
//! buffer and returns a single immutable [`Font`] value, or the first
//! error any stage hit.

use crate::cmap::{cmap_matches, parse_cmap_table, spec_parse_cmap_outcome, CmapTable};
use crate::directory::{
    directory_matches, parse_font_directory_table, spec_directory_ok, spec_directory_records,
    FontDirectoryTable,
};
use crate::error::{CapyError, ErrorCode};
use crate::glyf::{glyf_matches, parse_glyf_table, spec_glyf_outcome, GlyfTable};
use crate::metrics::{
    hhea_matches, parse_head_table, parse_hhea_table, parse_maxp_table, spec_locate_hhea,
    spec_parse_head, spec_parse_maxp, HeadTable, HheaTable, MaxpTable,
};
use crate::parser::ByteParser;
use vstd::prelude::*;

verus! {

/// A parsed font: the table directory, the character map, the three
/// metadata tables and the decoded glyph outlines. Built in one pass over
/// the source buffer and never mutated afterwards.
#[derive(Clone, Debug, PartialEq, Eq)]
pub struct Font {
    pub font_directory_table: FontDirectoryTable,
    pub cmap_table: CmapTable,
    pub head_table: HeadTable,
    pub hhea_table: HheaTable,
    pub maxp_table: MaxpTable,
    pub glyf_table: GlyfTable,
}

/// Outcome of parsing a whole font from `b`: the stages run in order —
/// directory, cmap, head, hhea, maxp, then loca and glyf — and the first
/// failing stage decides the error.
pub open spec fn spec_parse_font_outcome(b: Seq<u8>) -> Result<(), ErrorCode> {
    if !spec_directory_ok(b, 0) {
        Err(ErrorCode::OutOfRange)
    } else {
        let recs = spec_directory_records(b, 0);
        match spec_parse_cmap_outcome(b, recs) {
            Err(c) => Err(c),
            Ok(_) => match spec_parse_head(b, recs) {
                Err(c) => Err(c),
                Ok(head) => match spec_locate_hhea(b, recs) {
                    Err(c) => Err(c),
                    Ok(_) => match spec_parse_maxp(b, recs) {
                        Err(c) => Err(c),
                        Ok(maxp) => match spec_glyf_outcome(
                            b,
                            recs,
                            maxp.num_glyphs as int,
                            head.index_to_loc_format as int,
                        ) {
                            Err(c) => Err(c),
                            Ok(_) => Ok(()),
                        },
                    },
                },
            },
        }
    }
}

/// Every table of `f` is the one decoded from `b`.
pub open spec fn font_matches(b: Seq<u8>, f: Font) -> bool {
    let recs = spec_directory_records(b, 0);
    &&& directory_matches(b, 0, f.font_directory_table)
    &&& cmap_matches(b, recs, f.cmap_table)
    &&& f.cmap_table.wf()
    &&& spec_parse_head(b, recs) == Ok::<HeadTable, ErrorCode>(f.head_table)
    &&& spec_locate_hhea(b, recs) matches Ok(p) && hhea_matches(b, p, f.hhea_table)
    &&& spec_parse_maxp(b, recs) == Ok::<MaxpTable, ErrorCode>(f.maxp_table)
    &&& glyf_matches(
        b,
        recs,
        f.maxp_table.num_glyphs as int,
        f.head_table.index_to_loc_format as int,
        f.glyf_table,
    )
}

/// Parses a font from an in-memory sfnt buffer: table directory first,
/// then cmap, head, hhea, maxp, and the glyph outlines through loca.
/// Returns the first error a stage hit; a partially decoded font is never
/// returned.
#[verifier::rlimit(100)]
pub fn parse_font(buffer: &[u8]) -> (r: Result<Font, CapyError>)
    ensures
        match r {
            Ok(f) => spec_parse_font_outcome(buffer@) is Ok && font_matches(buffer@, f),
            Err(e) => spec_parse_font_outcome(buffer@) matches Err(c) && c == e.code,
        },
{
    let mut parser = ByteParser::new(buffer);
    let font_directory_table = match parse_font_directory_table(&mut parser) {
        Ok(d) => d,
        Err(e) => return Err(e.with_context("table directory")),
    };
    let cmap_table = match parse_cmap_table(&mut parser, &font_directory_table) {
        Ok(t) => t,
        Err(e) => return Err(e.with_context("cmap table")),
    };
    let head_table = match parse_head_table(&mut parser, &font_directory_table) {
        Ok(t) => t,
        Err(e) => return Err(e.with_context("head table")),
    };
    let hhea_table = match parse_hhea_table(&mut parser, &font_directory_table) {
        Ok(t) => t,
        Err(e) => return Err(e.with_context("hhea table")),
    };
    let maxp_table = match parse_maxp_table(&mut parser, &font_directory_table) {
        Ok(t) => t,
        Err(e) => return Err(e.with_context("maxp table")),
    };
    let glyf_table = match parse_glyf_table(
        &mut parser,
        &font_directory_table,
        maxp_table.num_glyphs,
        head_table.index_to_loc_format,
    ) {
        Ok(t) => t,
        Err(e) => return Err(e.with_context("glyf table")),
    };
    Ok(
        Font {
            font_directory_table,
            cmap_table,
            head_table,
            hhea_table,
            maxp_table,
            glyf_table,
        },
    )
}

} // verus!
