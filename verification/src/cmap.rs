//! The character map (`cmap`) table: encoding-subtable list plus the two
//! supported subtable formats, the byte-indexed format 0 and the segmented
//! format 4, and codepoint-to-glyph lookup over the decoded data.

use crate::directory::{
    lookup_offset_for_tag, spec_find_record, FontDirectoryTable, TableDirectorySubtable, TAG_CMAP,
};
use crate::error::{CapyError, ErrorCode};
use crate::parser::{be_u16_at, be_u32_at, ByteParser};
use vstd::prelude::*;

verus! {

/// One entry of the encoding-subtable list: a platform pair and the
/// subtable's offset relative to the start of the cmap table.
#[derive(Clone, Copy, Debug, PartialEq, Eq)]
pub struct CmapEncodingSubtable {
    pub platform_id: u16,
    pub platform_specific_id: u16,
    pub offset: u32,
}

/// Format 0: a flat array of 256 glyph indices, one byte per code point.
#[derive(Clone, Debug, PartialEq, Eq)]
pub struct CmapFormatZeroTable {
    pub format: u16,
    pub length: u16,
    pub language: u16,
    pub glyph_index_array: Vec<u8>,
}

/// Format 4: segments given by four parallel `seg_count` arrays, plus a
/// trailing glyph index array whose length is implied by `length`.
#[derive(Clone, Debug, PartialEq, Eq)]
pub struct CmapFormatFourTable {
    pub format: u16,
    pub length: u16,
    pub language: u16,
    pub seg_count_x2: u16,
    pub search_range: u16,
    pub entry_selector: u16,
    pub range_shift: u16,
    pub end_code: Vec<u16>,
    pub reserved_pad: u16,
    pub start_code: Vec<u16>,
    pub id_delta: Vec<u16>,
    pub id_range_offset: Vec<u16>,
    pub glyph_id_array: Vec<u16>,
}

/// A decoded subtable of one of the supported formats.
#[derive(Clone, Debug, PartialEq, Eq)]
pub enum CmapSubtable {
    FormatZero(CmapFormatZeroTable),
    FormatFour(CmapFormatFourTable),
}

/// The decoded cmap table. When several encoding records point at decodable
/// subtables, `subtable` holds the one named by the last record.
#[derive(Clone, Debug, PartialEq, Eq)]
pub struct CmapTable {
    pub version: u16,
    pub num_subtables: u16,
    pub encoding_subtables: Vec<CmapEncodingSubtable>,
    pub subtable: Option<CmapSubtable>,
}

/// Encoding record `i` of a run of 8-byte records starting at `p`.
pub open spec fn spec_encoding_record(b: Seq<u8>, p: int, i: int) -> CmapEncodingSubtable {
    CmapEncodingSubtable {
        platform_id: be_u16_at(b, p + 8 * i) as u16,
        platform_specific_id: be_u16_at(b, p + 8 * i + 2) as u16,
        offset: be_u32_at(b, p + 8 * i + 4) as u32,
    }
}

/// The encoding-record sequence encoded at `p`.
pub open spec fn spec_encoding_records(b: Seq<u8>, p: int, n: int) -> Seq<CmapEncodingSubtable> {
    Seq::new(n as nat, |i: int| spec_encoding_record(b, p, i))
}

/// `t` is the format-0 subtable whose fields start at `p` (the byte after
/// the format word) and whose format word read `format`.
pub open spec fn format_zero_matches(b: Seq<u8>, p: int, format: u16, t: CmapFormatZeroTable) -> bool {
    &&& t.format == format
    &&& t.length == be_u16_at(b, p)
    &&& t.language == be_u16_at(b, p + 2)
    &&& t.glyph_index_array@ == b.subrange(p + 4, p + 260)
}

/// Segment count declared by a format-4 subtable whose fields start at `p`.
pub open spec fn cmap4_seg_count(b: Seq<u8>, p: int) -> int {
    be_u16_at(b, p + 4) / 2
}

/// Entry count of the trailing glyph index array: the bytes of `length` not
/// consumed by the fixed fields and the four segment arrays, in u16 units.
/// A `length` too small for what was already read yields an empty array.
pub open spec fn cmap4_glyph_id_count(b: Seq<u8>, p: int) -> int {
    let length = be_u16_at(b, p);
    let consumed = 16 + 8 * cmap4_seg_count(b, p);
    if length >= consumed {
        (length - consumed) / 2
    } else {
        0
    }
}

/// Total size in bytes of a format-4 subtable starting at `p`, excluding
/// the format word.
pub open spec fn cmap4_size(b: Seq<u8>, p: int) -> int {
    14 + 8 * cmap4_seg_count(b, p) + 2 * cmap4_glyph_id_count(b, p)
}

/// `t` is the format-4 subtable whose fields start at `p` (the byte after
/// the format word) and whose format word read `format`.
pub open spec fn format_four_matches(b: Seq<u8>, p: int, format: u16, t: CmapFormatFourTable) -> bool {
    let seg = cmap4_seg_count(b, p);
    let gcount = cmap4_glyph_id_count(b, p);
    &&& t.format == format
    &&& t.length == be_u16_at(b, p)
    &&& t.language == be_u16_at(b, p + 2)
    &&& t.seg_count_x2 == be_u16_at(b, p + 4)
    &&& t.search_range == be_u16_at(b, p + 6)
    &&& t.entry_selector == be_u16_at(b, p + 8)
    &&& t.range_shift == be_u16_at(b, p + 10)
    &&& t.end_code@.len() == seg
    &&& forall|i: int| 0 <= i < seg ==> t.end_code@[i] == be_u16_at(b, p + 12 + 2 * i)
    &&& t.reserved_pad == be_u16_at(b, p + 12 + 2 * seg)
    &&& t.start_code@.len() == seg
    &&& forall|i: int| 0 <= i < seg ==> t.start_code@[i] == be_u16_at(b, p + 14 + 2 * seg + 2 * i)
    &&& t.id_delta@.len() == seg
    &&& forall|i: int| 0 <= i < seg ==> t.id_delta@[i] == be_u16_at(b, p + 14 + 4 * seg + 2 * i)
    &&& t.id_range_offset@.len() == seg
    &&& forall|i: int|
        0 <= i < seg ==> t.id_range_offset@[i] == be_u16_at(b, p + 14 + 6 * seg + 2 * i)
    &&& t.glyph_id_array@.len() == gcount
    &&& forall|i: int|
        0 <= i < gcount ==> t.glyph_id_array@[i] == be_u16_at(b, p + 14 + 8 * seg + 2 * i)
}

/// Outcome of decoding the subtable named by one encoding record:
/// the format word on success, `OutOfRange` for a truncated buffer,
/// `Unimplemented` for a format other than 0 and 4.
pub open spec fn spec_record_outcome(b: Seq<u8>, cmap_off: int, rec: CmapEncodingSubtable) -> Result<
    u16,
    ErrorCode,
> {
    let sub = cmap_off + rec.offset;
    if sub + 2 > b.len() {
        Err(ErrorCode::OutOfRange)
    } else {
        let f = be_u16_at(b, sub) as u16;
        if f == 0 {
            if sub + 262 > b.len() {
                Err(ErrorCode::OutOfRange)
            } else {
                Ok(0u16)
            }
        } else if f == 4 {
            if sub + 2 + cmap4_size(b, sub + 2) > b.len() {
                Err(ErrorCode::OutOfRange)
            } else {
                Ok(4u16)
            }
        } else {
            Err(ErrorCode::Unimplemented)
        }
    }
}

/// Outcome of decoding the subtables of all `records` in order; the first
/// failing record decides the error.
pub open spec fn spec_records_outcome(
    b: Seq<u8>,
    cmap_off: int,
    records: Seq<CmapEncodingSubtable>,
) -> Result<(), ErrorCode>
    decreases records.len(),
{
    if records.len() == 0 {
        Ok(())
    } else {
        match spec_records_outcome(b, cmap_off, records.drop_last()) {
            Err(c) => Err(c),
            Ok(()) => match spec_record_outcome(b, cmap_off, records.last()) {
                Err(c) => Err(c),
                Ok(_) => Ok(()),
            },
        }
    }
}

/// A prefix that decodes, followed by a record that fails, decides the
/// outcome of the whole record list.
proof fn lemma_records_outcome_err(
    b: Seq<u8>,
    cmap_off: int,
    records: Seq<CmapEncodingSubtable>,
    i: int,
    c: ErrorCode,
)
    requires
        0 <= i < records.len(),
        spec_records_outcome(b, cmap_off, records.take(i)) is Ok,
        spec_record_outcome(b, cmap_off, records[i]) == Err::<u16, ErrorCode>(c),
    ensures
        spec_records_outcome(b, cmap_off, records) == Err::<(), ErrorCode>(c),
    decreases records.len(),
{
    if i == records.len() - 1 {
        assert(records.take(i) =~= records.drop_last());
    } else {
        let shorter = records.drop_last();
        assert(shorter.take(i) =~= records.take(i));
        lemma_records_outcome_err(b, cmap_off, shorter, i, c);
    }
}

/// Outcome of decoding the whole cmap table through the directory.
pub open spec fn spec_parse_cmap_outcome(
    b: Seq<u8>,
    dir_records: Seq<TableDirectorySubtable>,
) -> Result<(), ErrorCode> {
    match spec_find_record(dir_records, TAG_CMAP) {
        None => Err(ErrorCode::NotFound),
        Some(rec) => {
            let co = rec.offset as int;
            if co + 4 > b.len() {
                Err(ErrorCode::OutOfRange)
            } else {
                let n = be_u16_at(b, co + 2);
                if co + 4 + 8 * n > b.len() {
                    Err(ErrorCode::OutOfRange)
                } else {
                    spec_records_outcome(b, co, spec_encoding_records(b, co + 4, n))
                }
            }
        },
    }
}

/// The subtable slot `sub` holds the decode of the subtable that `rec`
/// names, for the two supported format words.
pub open spec fn record_decodes_to(
    b: Seq<u8>,
    cmap_off: int,
    rec: CmapEncodingSubtable,
    sub: Option<CmapSubtable>,
) -> bool {
    let p = cmap_off + rec.offset;
    let f = be_u16_at(b, p);
    &&& f == 0 ==> (sub matches Some(CmapSubtable::FormatZero(z)) && format_zero_matches(
        b,
        p + 2,
        0u16,
        z,
    ))
    &&& f == 4 ==> (sub matches Some(CmapSubtable::FormatFour(q)) && format_four_matches(
        b,
        p + 2,
        4u16,
        q,
    ))
}

/// `t` is the cmap value decoded from `b` through the directory records.
pub open spec fn cmap_matches(b: Seq<u8>, dir_records: Seq<TableDirectorySubtable>, t: CmapTable) -> bool {
    &&& spec_find_record(dir_records, TAG_CMAP) matches Some(rec) && {
        let co = rec.offset as int;
        let n = be_u16_at(b, co + 2);
        &&& t.version == be_u16_at(b, co)
        &&& t.num_subtables == n
        &&& t.encoding_subtables@ == spec_encoding_records(b, co + 4, n)
        &&& if n == 0 {
            t.subtable is None
        } else {
            record_decodes_to(b, co, spec_encoding_record(b, co + 4, n - 1), t.subtable)
        }
    }
}

/// Reads `num_subtables` 8-byte encoding records at the current position.
pub fn parse_cmap_encoding_subtables(parser: &mut ByteParser, num_subtables: u16) -> (r: Result<
    Vec<CmapEncodingSubtable>,
    CapyError,
>)
    requires
        old(parser).wf(),
    ensures
        final(parser).bytes() == old(parser).bytes(),
        final(parser).wf(),
        match r {
            Ok(v) => {
                &&& old(parser).pos() + 8 * num_subtables <= old(parser).bytes().len()
                &&& v@ == spec_encoding_records(old(parser).bytes(), old(parser).pos(), num_subtables as int)
                &&& final(parser).pos() == old(parser).pos() + 8 * num_subtables
            },
            Err(e) => {
                &&& old(parser).pos() + 8 * num_subtables > old(parser).bytes().len()
                &&& e.code == ErrorCode::OutOfRange
            },
        },
{
    let ghost start = parser.pos();
    let mut tables: Vec<CmapEncodingSubtable> = Vec::new();
    let mut idx: u16 = 0;
    while idx < num_subtables
        invariant
            idx <= num_subtables,
            parser.wf(),
            parser.bytes() == old(parser).bytes(),
            parser.pos() == start + 8 * idx,
            start == old(parser).pos(),
            tables@.len() == idx,
            forall|i: int|
                0 <= i < idx ==> tables@[i] == spec_encoding_record(parser.bytes(), start, i),
        decreases num_subtables - idx,
    {
        let platform_id = match parser.read_be_u16() {
            Ok(v) => v,
            Err(e) => return Err(e),
        };
        let platform_specific_id = match parser.read_be_u16() {
            Ok(v) => v,
            Err(e) => return Err(e),
        };
        let offset = match parser.read_be_u32() {
            Ok(v) => v,
            Err(e) => return Err(e),
        };
        tables.push(CmapEncodingSubtable { platform_id, platform_specific_id, offset });
        idx = idx + 1;
    }
    proof {
        assert(tables@ =~= spec_encoding_records(parser.bytes(), start, num_subtables as int));
    }
    Ok(tables)
}

/// Decodes a format-0 subtable. The parser stands just past the format
/// word, whose value is passed through as `format`.
pub fn parse_cmap_format_zero(parser: &mut ByteParser, format: u16) -> (r: Result<
    CmapFormatZeroTable,
    CapyError,
>)
    requires
        old(parser).wf(),
    ensures
        final(parser).bytes() == old(parser).bytes(),
        final(parser).wf(),
        match r {
            Ok(t) => {
                &&& old(parser).pos() + 260 <= old(parser).bytes().len()
                &&& format_zero_matches(old(parser).bytes(), old(parser).pos(), format, t)
                &&& t.glyph_index_array@.len() == 256
                &&& final(parser).pos() == old(parser).pos() + 260
            },
            Err(e) => {
                &&& old(parser).pos() + 260 > old(parser).bytes().len()
                &&& e.code == ErrorCode::OutOfRange
            },
        },
{
    let length = match parser.read_be_u16() {
        Ok(v) => v,
        Err(e) => return Err(e),
    };
    let language = match parser.read_be_u16() {
        Ok(v) => v,
        Err(e) => return Err(e),
    };
    let glyph_index_array = match parser.read_u8_array_256() {
        Ok(v) => v,
        Err(e) => return Err(e),
    };
    Ok(CmapFormatZeroTable { format, length, language, glyph_index_array })
}

/// Decodes a format-4 subtable. The parser stands just past the format
/// word. The trailing glyph index array's entry count is derived from the
/// declared `length` minus the bytes already consumed.
pub fn parse_cmap_format_four(parser: &mut ByteParser, format: u16) -> (r: Result<
    CmapFormatFourTable,
    CapyError,
>)
    requires
        old(parser).wf(),
    ensures
        final(parser).bytes() == old(parser).bytes(),
        final(parser).wf(),
        match r {
            Ok(t) => {
                &&& old(parser).pos() + cmap4_size(old(parser).bytes(), old(parser).pos()) <= old(
                    parser,
                ).bytes().len()
                &&& format_four_matches(old(parser).bytes(), old(parser).pos(), format, t)
                &&& final(parser).pos() == old(parser).pos() + cmap4_size(
                    old(parser).bytes(),
                    old(parser).pos(),
                )
            },
            Err(e) => {
                &&& old(parser).pos() + cmap4_size(old(parser).bytes(), old(parser).pos()) > old(
                    parser,
                ).bytes().len()
                &&& e.code == ErrorCode::OutOfRange
            },
        },
{
    let ghost b = parser.bytes();
    let ghost start = parser.pos();
    let length = match parser.read_be_u16() {
        Ok(v) => v,
        Err(e) => return Err(e),
    };
    let language = match parser.read_be_u16() {
        Ok(v) => v,
        Err(e) => return Err(e),
    };
    let seg_count_x2 = match parser.read_be_u16() {
        Ok(v) => v,
        Err(e) => return Err(e),
    };
    let search_range = match parser.read_be_u16() {
        Ok(v) => v,
        Err(e) => return Err(e),
    };
    let entry_selector = match parser.read_be_u16() {
        Ok(v) => v,
        Err(e) => return Err(e),
    };
    let range_shift = match parser.read_be_u16() {
        Ok(v) => v,
        Err(e) => return Err(e),
    };
    let seg_count: usize = (seg_count_x2 / 2) as usize;
    proof {
        assert(seg_count == cmap4_seg_count(b, start));
    }
    let end_code = match parser.read_u16_run(seg_count) {
        Ok(v) => v,
        Err(e) => return Err(e),
    };
    let reserved_pad = match parser.read_be_u16() {
        Ok(v) => v,
        Err(e) => return Err(e),
    };
    let start_code = match parser.read_u16_run(seg_count) {
        Ok(v) => v,
        Err(e) => return Err(e),
    };
    let id_delta = match parser.read_u16_run(seg_count) {
        Ok(v) => v,
        Err(e) => return Err(e),
    };
    let id_range_offset = match parser.read_u16_run(seg_count) {
        Ok(v) => v,
        Err(e) => return Err(e),
    };
    let consumed: usize = 16 + 8 * seg_count;
    let glyph_id_count: usize = if length as usize >= consumed {
        (length as usize - consumed) / 2
    } else {
        0
    };
    proof {
        assert(glyph_id_count == cmap4_glyph_id_count(b, start));
    }
    let glyph_id_array = match parser.read_u16_run(glyph_id_count) {
        Ok(v) => v,
        Err(e) => return Err(e),
    };
    Ok(
        CmapFormatFourTable {
            format,
            length,
            language,
            seg_count_x2,
            search_range,
            entry_selector,
            range_shift,
            end_code,
            reserved_pad,
            start_code,
            id_delta,
            id_range_offset,
            glyph_id_array,
        },
    )
}

/// Locates the cmap table through the directory, reads the header and the
/// encoding-subtable list, then decodes the subtable behind each record in
/// order, keeping the one named by the last record. A record whose format
/// word is neither 0 nor 4 fails the whole decode with `Unimplemented`.
#[verifier::rlimit(100)]
pub fn parse_cmap_table(parser: &mut ByteParser, font_directory_table: &FontDirectoryTable) -> (r:
    Result<CmapTable, CapyError>)
    requires
        old(parser).wf(),
    ensures
        final(parser).bytes() == old(parser).bytes(),
        final(parser).wf(),
        match r {
            Ok(t) => {
                &&& spec_parse_cmap_outcome(
                    old(parser).bytes(),
                    font_directory_table.table_directory_subtables@,
                ) is Ok
                &&& cmap_matches(
                    old(parser).bytes(),
                    font_directory_table.table_directory_subtables@,
                    t,
                )
                &&& t.wf()
            },
            Err(e) => spec_parse_cmap_outcome(
                old(parser).bytes(),
                font_directory_table.table_directory_subtables@,
            ) matches Err(c) && c == e.code,
        },
{
    let ghost b = old(parser).bytes();
    let ghost dir_records = font_directory_table.table_directory_subtables@;
    let cmap_offset = match lookup_offset_for_tag(TAG_CMAP, font_directory_table) {
        Ok(off) => off,
        Err(e) => return Err(e),
    };
    match parser.set_offset(cmap_offset) {
        Ok(()) => (),
        Err(e) => return Err(e),
    }
    let version = match parser.read_be_u16() {
        Ok(v) => v,
        Err(e) => return Err(e),
    };
    let num_subtables = match parser.read_be_u16() {
        Ok(v) => v,
        Err(e) => return Err(e),
    };
    let encoding_subtables = match parse_cmap_encoding_subtables(parser, num_subtables) {
        Ok(v) => v,
        Err(e) => return Err(e),
    };
    let ghost recs = spec_encoding_records(b, cmap_offset + 4, num_subtables as int);
    let buffer_len: usize = parser.buffer.len();
    let mut subtable: Option<CmapSubtable> = None;
    let n = encoding_subtables.len();
    let mut i: usize = 0;
    while i < n
        invariant
            i <= n,
            n == recs.len(),
            parser.wf(),
            parser.bytes() == b,
            b == old(parser).bytes(),
            b.len() == buffer_len,
            encoding_subtables@ == recs,
            dir_records == font_directory_table.table_directory_subtables@,
            spec_find_record(dir_records, TAG_CMAP) matches Some(rc) && rc.offset == cmap_offset,
            cmap_offset + 4 <= b.len(),
            version == be_u16_at(b, cmap_offset as int),
            num_subtables == be_u16_at(b, cmap_offset as int + 2),
            cmap_offset + 4 + 8 * num_subtables <= b.len(),
            recs == spec_encoding_records(b, cmap_offset + 4, num_subtables as int),
            spec_records_outcome(b, cmap_offset as int, recs.take(i as int)) is Ok,
            i == 0 ==> subtable is None,
            i > 0 ==> record_decodes_to(b, cmap_offset as int, recs[i - 1], subtable),
            match subtable {
                Some(CmapSubtable::FormatZero(z)) => z.wf(),
                Some(CmapSubtable::FormatFour(q)) => q.wf(),
                None => i == 0,
            },
        decreases n - i,
    {
        let rec = encoding_subtables[i];
        let sub_off = match cmap_offset.checked_add(rec.offset as usize) {
            Some(s) => s,
            None => {
                proof {
                    lemma_records_outcome_err(
                        b,
                        cmap_offset as int,
                        recs,
                        i as int,
                        ErrorCode::OutOfRange,
                    );
                }
                return Err(
                    CapyError::new(ErrorCode::OutOfRange, "cmap subtable offset exceeds buffer"),
                );
            },
        };
        match parser.set_offset(sub_off) {
            Ok(()) => (),
            Err(e) => {
                proof {
                    lemma_records_outcome_err(
                        b,
                        cmap_offset as int,
                        recs,
                        i as int,
                        ErrorCode::OutOfRange,
                    );
                }
                return Err(e);
            },
        }
        let format = match parser.read_be_u16() {
            Ok(v) => v,
            Err(e) => {
                proof {
                    lemma_records_outcome_err(
                        b,
                        cmap_offset as int,
                        recs,
                        i as int,
                        ErrorCode::OutOfRange,
                    );
                }
                return Err(e);
            },
        };
        if format == 0 {
            let z = match parse_cmap_format_zero(parser, format) {
                Ok(z) => z,
                Err(e) => {
                    proof {
                        lemma_records_outcome_err(
                            b,
                            cmap_offset as int,
                            recs,
                            i as int,
                            ErrorCode::OutOfRange,
                        );
                    }
                    return Err(e);
                },
            };
            subtable = Some(CmapSubtable::FormatZero(z));
        } else if format == 4 {
            let q = match parse_cmap_format_four(parser, format) {
                Ok(q) => q,
                Err(e) => {
                    proof {
                        lemma_records_outcome_err(
                            b,
                            cmap_offset as int,
                            recs,
                            i as int,
                            ErrorCode::OutOfRange,
                        );
                    }
                    return Err(e);
                },
            };
            subtable = Some(CmapSubtable::FormatFour(q));
        } else {
            proof {
                lemma_records_outcome_err(
                    b,
                    cmap_offset as int,
                    recs,
                    i as int,
                    ErrorCode::Unimplemented,
                );
            }
            return Err(CapyError::new(ErrorCode::Unimplemented, "unsupported cmap subtable format"));
        }
        proof {
            assert(recs.take(i + 1).drop_last() =~= recs.take(i as int));
            assert(recs.take(i + 1).last() == recs[i as int]);
        }
        i = i + 1;
    }
    proof {
        assert(recs.take(n as int) =~= recs);
    }
    Ok(CmapTable { version, num_subtables, encoding_subtables, subtable })
}

impl CmapFormatZeroTable {
    /// The glyph index array covers exactly the 256 one-byte code points.
    pub open spec fn wf(&self) -> bool {
        self.glyph_index_array@.len() == 256
    }

    /// Glyph index for a code point: direct byte indexing for codes below
    /// 256, unmapped above.
    pub open spec fn spec_lookup(&self, codepoint: u16) -> Option<u16> {
        if codepoint < 256 {
            Some(self.glyph_index_array@[codepoint as int] as u16)
        } else {
            None
        }
    }

    /// Looks up a code point in the byte-indexed array.
    pub fn lookup(&self, codepoint: u16) -> (r: Option<u16>)
        requires
            self.wf(),
        ensures
            r == self.spec_lookup(codepoint),
    {
        if codepoint < 256 {
            Some(self.glyph_index_array[codepoint as usize] as u16)
        } else {
            None
        }
    }
}

/// The smallest index at or after `i` whose `end_code` entry is at least
/// `codepoint`; the array length when there is none.
pub open spec fn spec_first_seg(end_code: Seq<u16>, codepoint: u16, i: int) -> int
    decreases end_code.len() - i,
{
    if i < 0 || i >= end_code.len() {
        end_code.len() as int
    } else if end_code[i] >= codepoint {
        i
    } else {
        spec_first_seg(end_code, codepoint, i + 1)
    }
}

/// A scan that has rejected every index below `k` pins down
/// [`spec_first_seg`] from the start of the array.
proof fn lemma_first_seg_from(end_code: Seq<u16>, codepoint: u16, j: int, k: int)
    requires
        0 <= j <= k <= end_code.len(),
        forall|m: int| 0 <= m < k ==> end_code[m] < codepoint,
        k < end_code.len() ==> end_code[k] >= codepoint,
    ensures
        spec_first_seg(end_code, codepoint, j) == if k < end_code.len() {
            k
        } else {
            end_code.len() as int
        },
    decreases k - j,
{
    if j < k {
        lemma_first_seg_from(end_code, codepoint, j + 1, k);
    }
}

impl CmapFormatFourTable {
    /// The four segment arrays run in parallel: equal lengths.
    pub open spec fn wf(&self) -> bool {
        &&& self.start_code@.len() == self.end_code@.len()
        &&& self.id_delta@.len() == self.end_code@.len()
        &&& self.id_range_offset@.len() == self.end_code@.len()
    }

    /// What a well-formed font promises of its segments: an even
    /// `seg_count_x2`, a non-decreasing `end_code` array, and a final
    /// `end_code` entry of 0xFFFF. Decoding does not reject subtables that
    /// break this, so lookups on them may find no segment.
    pub open spec fn spec_well_ordered(&self) -> bool {
        &&& self.seg_count_x2 % 2 == 0
        &&& forall|i: int, j: int|
            0 <= i <= j < self.end_code@.len() ==> self.end_code@[i] <= self.end_code@[j]
        &&& self.end_code@.len() > 0 ==> self.end_code@.last() == 0xFFFF
    }

    /// Checks the segment invariant a well-formed font promises.
    pub fn is_well_ordered(&self) -> (r: bool)
        ensures
            r == self.spec_well_ordered(),
    {
        if self.seg_count_x2 % 2 != 0 {
            return false;
        }
        let n = self.end_code.len();
        if n == 0 {
            return true;
        }
        let mut i: usize = 1;
        while i < n
            invariant
                1 <= i <= n,
                n == self.end_code@.len(),
                forall|p: int, q: int| 0 <= p <= q < i ==> self.end_code@[p] <= self.end_code@[q],
            decreases n - i,
        {
            if self.end_code[i - 1] > self.end_code[i] {
                return false;
            }
            i = i + 1;
        }
        self.end_code[n - 1] == 0xFFFF
    }

    /// Glyph index for a code point, per the format-4 segment scheme: the
    /// first segment whose `end_code` reaches the code point decides. With
    /// a zero range offset the glyph is `codepoint + id_delta` modulo
    /// 65536; otherwise the glyph comes out of `glyph_id_array` at the
    /// position the range offset denotes, zero meaning unmapped, and is
    /// then adjusted by `id_delta`. A code point before the segment's
    /// `start_code`, or an indirect position outside `glyph_id_array`, is
    /// unmapped.
    pub open spec fn spec_lookup(&self, codepoint: u16) -> Option<u16> {
        let n = self.end_code@.len() as int;
        let i = spec_first_seg(self.end_code@, codepoint, 0);
        if i >= n {
            None
        } else if self.start_code@[i] > codepoint {
            None
        } else {
            let delta = self.id_delta@[i];
            let iro = self.id_range_offset@[i] as int;
            if iro == 0 {
                Some(codepoint.wrapping_add(delta))
            } else {
                let idx = iro / 2 + codepoint - self.start_code@[i] - (n - i);
                if idx < 0 || idx >= self.glyph_id_array@.len() {
                    None
                } else {
                    let g = self.glyph_id_array@[idx];
                    if g == 0 {
                        None
                    } else {
                        Some(g.wrapping_add(delta))
                    }
                }
            }
        }
    }

    /// Looks up a code point through the segment arrays.
    pub fn lookup(&self, codepoint: u16) -> (r: Option<u16>)
        requires
            self.wf(),
        ensures
            r == self.spec_lookup(codepoint),
    {
        let n = self.end_code.len();
        let mut i: usize = 0;
        while i < n && self.end_code[i] < codepoint
            invariant
                i <= n,
                n == self.end_code@.len(),
                forall|m: int| 0 <= m < i ==> self.end_code@[m] < codepoint,
            decreases n - i,
        {
            i = i + 1;
        }
        proof {
            lemma_first_seg_from(self.end_code@, codepoint, 0, i as int);
        }
        if i >= n {
            return None;
        }
        let start = self.start_code[i];
        if start > codepoint {
            return None;
        }
        let delta = self.id_delta[i];
        let iro = self.id_range_offset[i];
        if iro == 0 {
            Some(codepoint.wrapping_add(delta))
        } else {
            // iro/2 + (codepoint - start) - (n - i), without overflow
            let base: u64 = (iro / 2) as u64 + (codepoint - start) as u64;
            let back: u64 = (n - i) as u64;
            if back > base {
                return None;
            }
            let idx: u64 = base - back;
            if idx >= self.glyph_id_array.len() as u64 {
                return None;
            }
            let g = self.glyph_id_array[idx as usize];
            if g == 0 {
                None
            } else {
                Some(g.wrapping_add(delta))
            }
        }
    }
}

impl CmapTable {
    /// Whatever subtable was decoded is internally consistent.
    pub open spec fn wf(&self) -> bool {
        match self.subtable {
            Some(CmapSubtable::FormatZero(z)) => z.wf(),
            Some(CmapSubtable::FormatFour(q)) => q.wf(),
            None => true,
        }
    }

    /// Glyph index for a code point through the decoded subtable, if any.
    pub open spec fn spec_map_codepoint(&self, codepoint: u16) -> Option<u16> {
        match self.subtable {
            Some(CmapSubtable::FormatZero(z)) => z.spec_lookup(codepoint),
            Some(CmapSubtable::FormatFour(q)) => q.spec_lookup(codepoint),
            None => None,
        }
    }

    /// Maps a code point to its glyph index through the decoded subtable.
    pub fn map_codepoint(&self, codepoint: u16) -> (r: Option<u16>)
        requires
            self.wf(),
        ensures
            r == self.spec_map_codepoint(codepoint),
    {
        match &self.subtable {
            Some(CmapSubtable::FormatZero(z)) => z.lookup(codepoint),
            Some(CmapSubtable::FormatFour(q)) => q.lookup(codepoint),
            None => None,
        }
    }
}

} // verus!
