//! The sfnt table directory: a 12-byte offset header followed by one
//! 16-byte record per table, and tag-based offset lookup.

use crate::error::{CapyError, ErrorCode};
use crate::parser::{be_u16_at, be_u32_at, ByteParser};
use vstd::prelude::*;

verus! {

/// Four ASCII bytes packed big-endian into a u32, one constant per table
/// tag this crate consumes.
pub const TAG_CMAP: u32 = 0x636D6170;

pub const TAG_GLYF: u32 = 0x676C7966;

pub const TAG_HEAD: u32 = 0x68656164;

pub const TAG_HHEA: u32 = 0x68686561;

pub const TAG_LOCA: u32 = 0x6C6F6361;

pub const TAG_MAXP: u32 = 0x6D617870;

/// The fixed 12-byte header at the start of an sfnt file.
#[derive(Clone, Copy, Debug, PartialEq, Eq)]
pub struct OffsetSubtable {
    pub scalar_type: u32,
    pub num_tables: u16,
    pub search_range: u16,
    pub entry_selector: u16,
    pub range_shift: u16,
}

/// One 16-byte directory record naming a table and where it lives.
#[derive(Clone, Copy, Debug, PartialEq, Eq)]
pub struct TableDirectorySubtable {
    pub tag: u32,
    pub check_sum: u32,
    pub offset: u32,
    pub length: u32,
}

/// The decoded table directory: header plus records in file order.
#[derive(Clone, Debug, PartialEq, Eq)]
pub struct FontDirectoryTable {
    pub offset_subtable: OffsetSubtable,
    pub table_directory_subtables: Vec<TableDirectorySubtable>,
}

/// The offset header encoded at byte position `p`.
pub open spec fn spec_offset_subtable(b: Seq<u8>, p: int) -> OffsetSubtable {
    OffsetSubtable {
        scalar_type: be_u32_at(b, p) as u32,
        num_tables: be_u16_at(b, p + 4) as u16,
        search_range: be_u16_at(b, p + 6) as u16,
        entry_selector: be_u16_at(b, p + 8) as u16,
        range_shift: be_u16_at(b, p + 10) as u16,
    }
}

/// Record `i` of a run of 16-byte directory records starting at `p`.
pub open spec fn spec_table_record(b: Seq<u8>, p: int, i: int) -> TableDirectorySubtable {
    TableDirectorySubtable {
        tag: be_u32_at(b, p + 16 * i) as u32,
        check_sum: be_u32_at(b, p + 16 * i + 4) as u32,
        offset: be_u32_at(b, p + 16 * i + 8) as u32,
        length: be_u32_at(b, p + 16 * i + 12) as u32,
    }
}

/// The first record carrying `tag`, scanning in file order.
pub open spec fn spec_find_record(records: Seq<TableDirectorySubtable>, tag: u32) -> Option<
    TableDirectorySubtable,
>
    decreases records.len(),
{
    if records.len() == 0 {
        None
    } else if records[0].tag == tag {
        Some(records[0])
    } else {
        spec_find_record(records.skip(1), tag)
    }
}

/// A scan that has rejected every index below `i` and accepts index `i`
/// finds exactly `records[i]`; a scan that rejects every index finds
/// nothing.
proof fn lemma_find_record_characterization(
    records: Seq<TableDirectorySubtable>,
    tag: u32,
    i: int,
)
    requires
        0 <= i <= records.len(),
        forall|j: int| 0 <= j < i ==> records[j].tag != tag,
        i < records.len() ==> records[i].tag == tag,
    ensures
        i < records.len() ==> spec_find_record(records, tag) == Some(records[i]),
        i == records.len() ==> spec_find_record(records, tag) is None,
    decreases i,
{
    if records.len() == 0 {
    } else if i == 0 {
    } else {
        let rest = records.skip(1);
        assert(forall|j: int| 0 <= j < rest.len() ==> rest[j] == records[j + 1]);
        lemma_find_record_characterization(rest, tag, i - 1);
    }
}

/// Reads the 12-byte offset header at the current position.
pub fn parse_offset_table(parser: &mut ByteParser) -> (r: Result<OffsetSubtable, CapyError>)
    requires
        old(parser).wf(),
    ensures
        final(parser).bytes() == old(parser).bytes(),
        final(parser).wf(),
        match r {
            Ok(t) => {
                &&& old(parser).pos() + 12 <= old(parser).bytes().len()
                &&& t == spec_offset_subtable(old(parser).bytes(), old(parser).pos())
                &&& final(parser).pos() == old(parser).pos() + 12
            },
            Err(e) => {
                &&& old(parser).pos() + 12 > old(parser).bytes().len()
                &&& e.code == ErrorCode::OutOfRange
            },
        },
{
    let scalar_type = match parser.read_be_u32() {
        Ok(v) => v,
        Err(e) => return Err(e),
    };
    let num_tables = match parser.read_be_u16() {
        Ok(v) => v,
        Err(e) => return Err(e),
    };
    let search_range = match parser.read_be_u16() {
        Ok(v) => v,
        Err(e) => return Err(e),
    };
    let entry_selector = match parser.read_be_u16() {
        Ok(v) => v,
        Err(e) => return Err(e),
    };
    let range_shift = match parser.read_be_u16() {
        Ok(v) => v,
        Err(e) => return Err(e),
    };
    Ok(OffsetSubtable { scalar_type, num_tables, search_range, entry_selector, range_shift })
}

/// Reads `num_tables` 16-byte directory records at the current position.
pub fn parse_table_directory_subtables(parser: &mut ByteParser, num_tables: u16) -> (r: Result<
    Vec<TableDirectorySubtable>,
    CapyError,
>)
    requires
        old(parser).wf(),
    ensures
        final(parser).bytes() == old(parser).bytes(),
        final(parser).wf(),
        match r {
            Ok(v) => {
                &&& old(parser).pos() + 16 * num_tables <= old(parser).bytes().len()
                &&& v@.len() == num_tables
                &&& forall|i: int|
                    0 <= i < num_tables ==> v@[i] == spec_table_record(
                        old(parser).bytes(),
                        old(parser).pos(),
                        i,
                    )
                &&& final(parser).pos() == old(parser).pos() + 16 * num_tables
            },
            Err(e) => {
                &&& old(parser).pos() + 16 * num_tables > old(parser).bytes().len()
                &&& e.code == ErrorCode::OutOfRange
            },
        },
{
    let ghost start = parser.pos();
    let mut subtables: Vec<TableDirectorySubtable> = Vec::new();
    let mut idx: u16 = 0;
    while idx < num_tables
        invariant
            idx <= num_tables,
            parser.wf(),
            parser.bytes() == old(parser).bytes(),
            parser.pos() == start + 16 * idx,
            start == old(parser).pos(),
            subtables@.len() == idx,
            forall|i: int|
                0 <= i < idx ==> subtables@[i] == spec_table_record(parser.bytes(), start, i),
        decreases num_tables - idx,
    {
        let tag = match parser.read_be_u32() {
            Ok(v) => v,
            Err(e) => return Err(e),
        };
        let check_sum = match parser.read_be_u32() {
            Ok(v) => v,
            Err(e) => return Err(e),
        };
        let offset = match parser.read_be_u32() {
            Ok(v) => v,
            Err(e) => return Err(e),
        };
        let length = match parser.read_be_u32() {
            Ok(v) => v,
            Err(e) => return Err(e),
        };
        subtables.push(TableDirectorySubtable { tag, check_sum, offset, length });
        idx = idx + 1;
    }
    Ok(subtables)
}

/// Reads the whole table directory: offset header, then exactly
/// `num_tables` records.
pub fn parse_font_directory_table(parser: &mut ByteParser) -> (r: Result<
    FontDirectoryTable,
    CapyError,
>)
    requires
        old(parser).wf(),
    ensures
        final(parser).bytes() == old(parser).bytes(),
        final(parser).wf(),
        match r {
            Ok(d) => {
                &&& spec_directory_ok(old(parser).bytes(), old(parser).pos())
                &&& directory_matches(old(parser).bytes(), old(parser).pos(), d)
                &&& final(parser).pos() == old(parser).pos() + 12 + 16 * d.offset_subtable.num_tables
            },
            Err(e) => {
                &&& !spec_directory_ok(old(parser).bytes(), old(parser).pos())
                &&& e.code == ErrorCode::OutOfRange
            },
        },
{
    let offset_subtable = match parse_offset_table(parser) {
        Ok(t) => t,
        Err(e) => return Err(e),
    };
    let table_directory_subtables = match parse_table_directory_subtables(
        parser,
        offset_subtable.num_tables,
    ) {
        Ok(v) => v,
        Err(e) => return Err(e),
    };
    let d = FontDirectoryTable { offset_subtable, table_directory_subtables };
    proof {
        assert(d.table_directory_subtables@ =~= spec_directory_records(
            old(parser).bytes(),
            old(parser).pos(),
        ));
    }
    Ok(d)
}

/// The whole directory (header and records) fits in the buffer.
pub open spec fn spec_directory_ok(b: Seq<u8>, p: int) -> bool {
    p + 12 + 16 * be_u16_at(b, p + 4) <= b.len()
}

/// The record sequence encoded at `p + 12`, one entry per table.
pub open spec fn spec_directory_records(b: Seq<u8>, p: int) -> Seq<TableDirectorySubtable> {
    Seq::new(be_u16_at(b, p + 4) as nat, |i: int| spec_table_record(b, p + 12, i))
}

impl FontDirectoryTable {
    /// Scans the records in file order and returns the offset recorded for
    /// the first one carrying `tag`; fails with `NotFound` when no record
    /// does. Tag comparison is exact 32-bit equality.
    pub fn find_table(&self, tag: u32) -> (r: Result<u32, CapyError>)
        ensures
            match r {
                Ok(off) => {
                    &&& spec_find_record(self.table_directory_subtables@, tag) matches Some(rec)
                        && off == rec.offset
                },
                Err(e) => {
                    &&& spec_find_record(self.table_directory_subtables@, tag) is None
                    &&& e.code == ErrorCode::NotFound
                },
            },
    {
        let n = self.table_directory_subtables.len();
        let mut i: usize = 0;
        while i < n
            invariant
                i <= n,
                n == self.table_directory_subtables@.len(),
                forall|j: int| 0 <= j < i ==> self.table_directory_subtables@[j].tag != tag,
            decreases n - i,
        {
            if self.table_directory_subtables[i].tag == tag {
                proof {
                    lemma_find_record_characterization(
                        self.table_directory_subtables@,
                        tag,
                        i as int,
                    );
                }
                return Ok(self.table_directory_subtables[i].offset);
            }
            i = i + 1;
        }
        proof {
            lemma_find_record_characterization(self.table_directory_subtables@, tag, n as int);
        }
        Err(CapyError::new(ErrorCode::NotFound, "table not found in FontDirectoryTable"))
    }
}

/// [`FontDirectoryTable::find_table`], with the offset widened for use as a
/// buffer position.
pub fn lookup_offset_for_tag(tag: u32, font_directory_table: &FontDirectoryTable) -> (r: Result<
    usize,
    CapyError,
>)
    ensures
        match r {
            Ok(off) => {
                &&& spec_find_record(font_directory_table.table_directory_subtables@, tag)
                    matches Some(rec) && off == rec.offset
            },
            Err(e) => {
                &&& spec_find_record(font_directory_table.table_directory_subtables@, tag) is None
                &&& e.code == ErrorCode::NotFound
            },
        },
{
    match font_directory_table.find_table(tag) {
        Ok(off) => Ok(off as usize),
        Err(e) => Err(e),
    }
}

/// `d` is the directory value encoded at byte position `p`.
pub open spec fn directory_matches(b: Seq<u8>, p: int, d: FontDirectoryTable) -> bool {
    &&& d.offset_subtable == spec_offset_subtable(b, p)
    &&& d.table_directory_subtables@ == spec_directory_records(b, p)
}

} // verus!
