//! Glyph outlines (`glyf`), addressed through the glyph offset index
//! (`loca`): contour boundaries, opaque instruction bytecode, per-point
//! flags with run-length compression, and delta-encoded coordinates.

use crate::directory::{
    lookup_offset_for_tag, spec_find_record, FontDirectoryTable, TableDirectorySubtable, TAG_GLYF,
    TAG_LOCA,
};
use crate::error::{CapyError, ErrorCode};
use crate::parser::{be_i16_at, be_u16_at, be_u32_at, ByteParser};
use vstd::prelude::*;

verus! {

/// Flag bit: the run of this flag byte repeats.
pub const FLAG_REPEAT: u8 = 0x08;

/// Flag bit: the x delta is one unsigned byte.
pub const FLAG_X_IS_BYTE: u8 = 0x02;

/// Flag bit: sign of a one-byte x delta, or "x unchanged" otherwise.
pub const FLAG_X_POSITIVE: u8 = 0x10;

/// Flag bit: the y delta is one unsigned byte.
pub const FLAG_Y_IS_BYTE: u8 = 0x04;

/// Flag bit: sign of a one-byte y delta, or "y unchanged" otherwise.
pub const FLAG_Y_POSITIVE: u8 = 0x20;

/// Run-length expansion of the per-point flags starting at `p`, until
/// exactly `needed` flags stand. Each byte read is one flag; a byte with
/// the repeat bit is followed by a count of additional copies. The
/// expansion fails with `OutOfRange` on a truncated buffer and with
/// `InvalidArgument` when a repeat run would overshoot `needed`. On
/// success the expanded sequence and the position after the run are
/// returned.
pub open spec fn spec_decode_flags(b: Seq<u8>, p: int, needed: int) -> Result<
    (Seq<u8>, int),
    ErrorCode,
>
    decreases needed,
{
    if needed <= 0 {
        Ok((Seq::empty(), p))
    } else if p + 1 > b.len() {
        Err(ErrorCode::OutOfRange)
    } else {
        let f = b[p];
        if f & FLAG_REPEAT != 0 {
            if p + 2 > b.len() {
                Err(ErrorCode::OutOfRange)
            } else {
                let rep = b[p + 1] as int;
                if 1 + rep > needed {
                    Err(ErrorCode::InvalidArgument)
                } else {
                    match spec_decode_flags(b, p + 2, needed - 1 - rep) {
                        Err(c) => Err(c),
                        Ok((rest, q)) => Ok((Seq::new((1 + rep) as nat, |j: int| f) + rest, q)),
                    }
                }
            }
        } else {
            match spec_decode_flags(b, p + 1, needed - 1) {
                Err(c) => Err(c),
                Ok((rest, q)) => Ok((Seq::new(1, |j: int| f) + rest, q)),
            }
        }
    }
}

/// Reads and expands per-point flags until `num_points` flags stand.
pub fn parse_flags(parser: &mut ByteParser, num_points: usize) -> (r: Result<Vec<u8>, CapyError>)
    requires
        old(parser).wf(),
    ensures
        final(parser).bytes() == old(parser).bytes(),
        final(parser).wf(),
        match r {
            Ok(v) => {
                &&& spec_decode_flags(old(parser).bytes(), old(parser).pos(), num_points as int)
                    matches Ok((fl, q)) && v@ == fl && final(parser).pos() == q
                &&& v@.len() == num_points
            },
            Err(e) => spec_decode_flags(old(parser).bytes(), old(parser).pos(), num_points as int)
                matches Err(c) && c == e.code,
        },
{
    let ghost b = old(parser).bytes();
    let ghost start = old(parser).pos();
    let mut flags: Vec<u8> = Vec::new();
    while flags.len() < num_points
        invariant
            parser.wf(),
            parser.bytes() == b,
            b == old(parser).bytes(),
            start == old(parser).pos(),
            flags@.len() <= num_points,
            match spec_decode_flags(b, parser.pos(), num_points - flags@.len()) {
                Ok((rest, q)) => spec_decode_flags(b, start, num_points as int) == Ok::<
                    (Seq<u8>, int),
                    ErrorCode,
                >((flags@ + rest, q)),
                Err(c) => spec_decode_flags(b, start, num_points as int) == Err::<
                    (Seq<u8>, int),
                    ErrorCode,
                >(c),
            },
        decreases num_points - flags.len(),
    {
        let ghost pre = flags@;
        let ghost p0 = parser.pos();
        let ghost needed0 = num_points - pre.len();
        let flag = match parser.read_be_u8() {
            Ok(v) => v,
            Err(e) => return Err(e),
        };
        flags.push(flag);
        if flag & FLAG_REPEAT != 0 {
            let repeat_count = match parser.read_be_u8() {
                Ok(v) => v,
                Err(e) => return Err(e),
            };
            if (repeat_count as usize) > num_points - flags.len() {
                return Err(
                    CapyError::new(
                        ErrorCode::InvalidArgument,
                        "glyph flag repeat run exceeds the point count",
                    ),
                );
            }
            let mut k: u8 = 0;
            while k < repeat_count
                invariant
                    k <= repeat_count,
                    pre.len() + 1 + repeat_count <= num_points,
                    flags@.len() == pre.len() + 1 + k,
                    flags@ =~= pre + Seq::new((1 + k) as nat, |j: int| flag),
                    num_points - flags@.len() == needed0 - 1 - k,
                decreases repeat_count - k,
            {
                flags.push(flag);
                k = k + 1;
                proof {
                    assert(flags@ =~= pre + Seq::new((1 + k) as nat, |j: int| flag));
                }
            }
            proof {
                let rep = repeat_count as int;
                assert(flags@ =~= pre + Seq::new((1 + rep) as nat, |j: int| flag));
                match spec_decode_flags(b, parser.pos(), num_points - flags@.len()) {
                    Ok((rest, q)) => {
                        assert(spec_decode_flags(b, p0, needed0) == Ok::<(Seq<u8>, int), ErrorCode>(
                            (Seq::new((1 + rep) as nat, |j: int| flag) + rest, q),
                        ));
                        assert(pre + (Seq::new((1 + rep) as nat, |j: int| flag) + rest) =~= flags@
                            + rest);
                    },
                    Err(_) => {},
                }
            }
        } else {
            proof {
                match spec_decode_flags(b, parser.pos(), num_points - flags@.len()) {
                    Ok((rest, q)) => {
                        assert(spec_decode_flags(b, p0, needed0) == Ok::<(Seq<u8>, int), ErrorCode>(
                            (Seq::new(1, |j: int| flag) + rest, q),
                        ));
                        assert(pre + (Seq::new(1, |j: int| flag) + rest) =~= flags@ + rest);
                    },
                    Err(_) => {},
                }
            }
        }
    }
    proof {
        assert(flags@ + Seq::<u8>::empty() =~= flags@);
    }
    Ok(flags)
}

/// Absolute coordinates reconstructed from the delta stream at `p`, one
/// per flag from index `i` on, folding left from the running value `prev`.
/// A flag with the `is_byte` bit consumes one unsigned byte, added or
/// subtracted by the `positive` bit; otherwise a clear `positive` bit
/// consumes one signed 16-bit delta, and a set one repeats the running
/// value. Accumulation wraps as 16-bit signed arithmetic.
pub open spec fn spec_decode_coords(
    b: Seq<u8>,
    p: int,
    flags: Seq<u8>,
    i: int,
    prev: i16,
    is_byte: u8,
    positive: u8,
) -> Result<(Seq<i16>, int), ErrorCode>
    decreases flags.len() - i,
{
    if i < 0 || i >= flags.len() {
        Ok((Seq::empty(), p))
    } else {
        let f = flags[i];
        if f & is_byte != 0 {
            if p + 1 > b.len() {
                Err(ErrorCode::OutOfRange)
            } else {
                let d = b[p] as i16;
                let v = if f & positive != 0 {
                    prev.wrapping_add(d)
                } else {
                    prev.wrapping_sub(d)
                };
                match spec_decode_coords(b, p + 1, flags, i + 1, v, is_byte, positive) {
                    Err(c) => Err(c),
                    Ok((rest, q)) => Ok((seq![v] + rest, q)),
                }
            }
        } else if f & positive == 0 {
            if p + 2 > b.len() {
                Err(ErrorCode::OutOfRange)
            } else {
                let v = prev.wrapping_add(be_i16_at(b, p) as i16);
                match spec_decode_coords(b, p + 2, flags, i + 1, v, is_byte, positive) {
                    Err(c) => Err(c),
                    Ok((rest, q)) => Ok((seq![v] + rest, q)),
                }
            }
        } else {
            match spec_decode_coords(b, p, flags, i + 1, prev, is_byte, positive) {
                Err(c) => Err(c),
                Ok((rest, q)) => Ok((seq![prev] + rest, q)),
            }
        }
    }
}

/// Coordinate reconstruction is a pure fold over the flag/delta stream:
/// any two decodes of the same bytes, position and flags yield the same
/// absolute coordinate sequence and end position. Together with the
/// contract of [`parse_coordinates`], whose result always equals this
/// fold, repeated decodes of the same stream agree.
pub proof fn lemma_coordinate_decode_deterministic(
    b: Seq<u8>,
    p: int,
    flags: Seq<u8>,
    is_byte: u8,
    positive: u8,
    first: (Seq<i16>, int),
    second: (Seq<i16>, int),
)
    requires
        spec_decode_coords(b, p, flags, 0, 0i16, is_byte, positive) == Ok::<
            (Seq<i16>, int),
            ErrorCode,
        >(first),
        spec_decode_coords(b, p, flags, 0, 0i16, is_byte, positive) == Ok::<
            (Seq<i16>, int),
            ErrorCode,
        >(second),
    ensures
        first == second,
{
}

/// Reads one coordinate stream, one value per flag, folding deltas into
/// absolute positions starting from zero.
pub fn parse_coordinates(parser: &mut ByteParser, flags: &Vec<u8>, is_byte: u8, positive: u8) -> (r:
    Result<Vec<i16>, CapyError>)
    requires
        old(parser).wf(),
    ensures
        final(parser).bytes() == old(parser).bytes(),
        final(parser).wf(),
        match r {
            Ok(v) => {
                &&& spec_decode_coords(
                    old(parser).bytes(),
                    old(parser).pos(),
                    flags@,
                    0,
                    0i16,
                    is_byte,
                    positive,
                ) matches Ok((cs, q)) && v@ == cs && final(parser).pos() == q
                &&& v@.len() == flags@.len()
            },
            Err(e) => spec_decode_coords(
                old(parser).bytes(),
                old(parser).pos(),
                flags@,
                0,
                0i16,
                is_byte,
                positive,
            ) matches Err(c) && c == e.code,
        },
{
    let ghost b = old(parser).bytes();
    let ghost start = old(parser).pos();
    let n = flags.len();
    let mut coords: Vec<i16> = Vec::new();
    let mut acc: i16 = 0;
    let mut i: usize = 0;
    while i < n
        invariant
            i <= n,
            n == flags@.len(),
            i == coords@.len(),
            parser.wf(),
            parser.bytes() == b,
            b == old(parser).bytes(),
            start == old(parser).pos(),
            match spec_decode_coords(b, parser.pos(), flags@, i as int, acc, is_byte, positive) {
                Ok((rest, q)) => spec_decode_coords(b, start, flags@, 0, 0i16, is_byte, positive)
                    == Ok::<(Seq<i16>, int), ErrorCode>((coords@ + rest, q)),
                Err(c) => spec_decode_coords(b, start, flags@, 0, 0i16, is_byte, positive) == Err::<
                    (Seq<i16>, int),
                    ErrorCode,
                >(c),
            },
        decreases n - i,
    {
        let ghost pre = coords@;
        let flag = flags[i];
        if flag & is_byte != 0 {
            let d = match parser.read_be_u8() {
                Ok(v) => v,
                Err(e) => return Err(e),
            };
            if flag & positive != 0 {
                acc = acc.wrapping_add(d as i16);
            } else {
                acc = acc.wrapping_sub(d as i16);
            }
        } else if flag & positive == 0 {
            let d = match parser.read_be_i16() {
                Ok(v) => v,
                Err(e) => return Err(e),
            };
            acc = acc.wrapping_add(d);
        }
        coords.push(acc);
        i = i + 1;
        proof {
            match spec_decode_coords(b, parser.pos(), flags@, i as int, acc, is_byte, positive) {
                Ok((rest, q)) => {
                    assert(pre + (seq![acc] + rest) =~= coords@ + rest);
                },
                Err(_) => {},
            }
        }
    }
    proof {
        assert(coords@ + Seq::<i16>::empty() =~= coords@);
    }
    Ok(coords)
}

/// A fully decoded simple glyph: contour boundaries, opaque instructions,
/// expanded flags and absolute coordinates.
#[derive(Clone, Debug, PartialEq, Eq)]
pub struct SimpleGlyphOutline {
    pub number_of_contours: i16,
    pub x_min: i16,
    pub y_min: i16,
    pub x_max: i16,
    pub y_max: i16,
    pub end_pts_of_contours: Vec<u16>,
    pub instruction_length: u16,
    pub instructions: Vec<u8>,
    pub flags: Vec<u8>,
    pub x_coordinates: Vec<i16>,
    pub y_coordinates: Vec<i16>,
}

/// A compound glyph: recognized by its negative contour count and left
/// undecoded beyond the ten-byte header.
#[derive(Clone, Copy, Debug, PartialEq, Eq)]
pub struct CompoundGlyphOutline {
    pub number_of_contours: i16,
    pub x_min: i16,
    pub y_min: i16,
    pub x_max: i16,
    pub y_max: i16,
}

/// One glyph of the glyf table.
#[derive(Clone, Debug, PartialEq, Eq)]
pub enum GlyphOutline {
    Simple(SimpleGlyphOutline),
    Compound(CompoundGlyphOutline),
}

/// All decoded glyph outlines of a font, in glyph-index order.
#[derive(Clone, Debug, PartialEq, Eq)]
pub struct GlyfTable {
    pub glyphs: Vec<GlyphOutline>,
}

impl SimpleGlyphOutline {
    /// The glyph's total point count: one past the last contour end point,
    /// zero when there is no contour.
    pub open spec fn spec_num_points(&self) -> int {
        if self.end_pts_of_contours@.len() == 0 {
            0
        } else {
            self.end_pts_of_contours@.last() + 1
        }
    }

    /// The expanded flags and both coordinate arrays carry exactly one
    /// entry per point, and the contour list matches the contour count.
    pub open spec fn wf(&self) -> bool {
        &&& self.number_of_contours >= 0
        &&& self.end_pts_of_contours@.len() == self.number_of_contours
        &&& self.flags@.len() == self.spec_num_points()
        &&& self.x_coordinates@.len() == self.spec_num_points()
        &&& self.y_coordinates@.len() == self.spec_num_points()
    }
}

impl GlyphOutline {
    /// A simple glyph is internally consistent; a compound one has no
    /// decoded body to constrain.
    pub open spec fn wf(&self) -> bool {
        match self {
            GlyphOutline::Simple(s) => s.wf(),
            GlyphOutline::Compound(_) => true,
        }
    }
}

/// The point count declared by the glyph whose header starts at `p`: one
/// past the last contour end point, zero for no contours.
pub open spec fn spec_glyph_num_points(b: Seq<u8>, p: int) -> int {
    let nc = be_i16_at(b, p);
    if nc <= 0 {
        0
    } else {
        be_u16_at(b, p + 10 + 2 * (nc - 1)) + 1
    }
}

/// Outcome of decoding one glyph at `p`: the position after the glyph on
/// success, or the error code. A negative contour count is a compound
/// glyph, whose body is not decoded.
pub open spec fn spec_glyph_outcome(b: Seq<u8>, p: int) -> Result<int, ErrorCode> {
    if p + 10 > b.len() {
        Err(ErrorCode::OutOfRange)
    } else {
        let nc = be_i16_at(b, p);
        if nc < 0 {
            Ok(p + 10)
        } else if p + 10 + 2 * nc > b.len() {
            Err(ErrorCode::OutOfRange)
        } else {
            let q = p + 10 + 2 * nc;
            if q + 2 > b.len() {
                Err(ErrorCode::OutOfRange)
            } else {
                let ilen = be_u16_at(b, q);
                if q + 2 + ilen > b.len() {
                    Err(ErrorCode::OutOfRange)
                } else {
                    match spec_decode_flags(b, q + 2 + ilen, spec_glyph_num_points(b, p)) {
                        Err(c) => Err(c),
                        Ok((fl, p2)) => match spec_decode_coords(
                            b,
                            p2,
                            fl,
                            0,
                            0i16,
                            FLAG_X_IS_BYTE,
                            FLAG_X_POSITIVE,
                        ) {
                            Err(c) => Err(c),
                            Ok((xs, p3)) => match spec_decode_coords(
                                b,
                                p3,
                                fl,
                                0,
                                0i16,
                                FLAG_Y_IS_BYTE,
                                FLAG_Y_POSITIVE,
                            ) {
                                Err(c) => Err(c),
                                Ok((ys, p4)) => Ok(p4),
                            },
                        },
                    }
                }
            }
        }
    }
}

/// `g` is the glyph decoded from position `p`.
pub open spec fn glyph_matches(b: Seq<u8>, p: int, g: GlyphOutline) -> bool {
    let nc = be_i16_at(b, p);
    if nc < 0 {
        g matches GlyphOutline::Compound(c) && {
            &&& c.number_of_contours == nc
            &&& c.x_min == be_i16_at(b, p + 2)
            &&& c.y_min == be_i16_at(b, p + 4)
            &&& c.x_max == be_i16_at(b, p + 6)
            &&& c.y_max == be_i16_at(b, p + 8)
        }
    } else {
        g matches GlyphOutline::Simple(s) && {
            let q = p + 10 + 2 * nc;
            let ilen = be_u16_at(b, q);
            &&& s.number_of_contours == nc
            &&& s.x_min == be_i16_at(b, p + 2)
            &&& s.y_min == be_i16_at(b, p + 4)
            &&& s.x_max == be_i16_at(b, p + 6)
            &&& s.y_max == be_i16_at(b, p + 8)
            &&& s.end_pts_of_contours@.len() == nc
            &&& forall|i: int|
                0 <= i < nc ==> s.end_pts_of_contours@[i] == be_u16_at(b, p + 10 + 2 * i)
            &&& s.instruction_length == ilen
            &&& s.instructions@ == b.subrange(q + 2, q + 2 + ilen)
            &&& (spec_decode_flags(b, q + 2 + ilen, spec_glyph_num_points(b, p)) matches Ok(
                (fl, p2),
            ) && {
                &&& s.flags@ == fl
                &&& (spec_decode_coords(b, p2, fl, 0, 0i16, FLAG_X_IS_BYTE, FLAG_X_POSITIVE)
                    matches Ok((xs, p3)) && {
                    &&& s.x_coordinates@ == xs
                    &&& (spec_decode_coords(b, p3, fl, 0, 0i16, FLAG_Y_IS_BYTE, FLAG_Y_POSITIVE)
                        matches Ok((ys, p4)) && s.y_coordinates@ == ys)
                })
            })
        }
    }
}

/// Decodes one glyph at the current position: header and bounding box,
/// then, for a simple glyph, contour end points, instruction bytecode,
/// run-length-expanded flags and both delta-encoded coordinate streams. A
/// negative contour count yields a `Compound` glyph whose body is left
/// undecoded, so the caller can move on to the next glyph.
pub fn parse_glyph_subtable(parser: &mut ByteParser) -> (r: Result<GlyphOutline, CapyError>)
    requires
        old(parser).wf(),
    ensures
        final(parser).bytes() == old(parser).bytes(),
        final(parser).wf(),
        match r {
            Ok(g) => {
                &&& spec_glyph_outcome(old(parser).bytes(), old(parser).pos()) matches Ok(q)
                    && final(parser).pos() == q
                &&& glyph_matches(old(parser).bytes(), old(parser).pos(), g)
                &&& g.wf()
            },
            Err(e) => spec_glyph_outcome(old(parser).bytes(), old(parser).pos()) matches Err(c)
                && c == e.code,
        },
{
    let number_of_contours = match parser.read_be_i16() {
        Ok(v) => v,
        Err(e) => return Err(e),
    };
    let x_min = match parser.read_be_i16() {
        Ok(v) => v,
        Err(e) => return Err(e),
    };
    let y_min = match parser.read_be_i16() {
        Ok(v) => v,
        Err(e) => return Err(e),
    };
    let x_max = match parser.read_be_i16() {
        Ok(v) => v,
        Err(e) => return Err(e),
    };
    let y_max = match parser.read_be_i16() {
        Ok(v) => v,
        Err(e) => return Err(e),
    };
    if number_of_contours < 0 {
        return Ok(
            GlyphOutline::Compound(
                CompoundGlyphOutline { number_of_contours, x_min, y_min, x_max, y_max },
            ),
        );
    }
    let contour_count = number_of_contours as usize;
    let end_pts_of_contours = match parser.read_u16_run(contour_count) {
        Ok(v) => v,
        Err(e) => return Err(e),
    };
    let instruction_length = match parser.read_be_u16() {
        Ok(v) => v,
        Err(e) => return Err(e),
    };
    let instructions = match parser.read_u8_run(instruction_length as usize) {
        Ok(v) => v,
        Err(e) => return Err(e),
    };
    let num_points: usize = if contour_count == 0 {
        0
    } else {
        end_pts_of_contours[contour_count - 1] as usize + 1
    };
    proof {
        assert(num_points == spec_glyph_num_points(old(parser).bytes(), old(parser).pos()));
    }
    let flags = match parse_flags(parser, num_points) {
        Ok(v) => v,
        Err(e) => return Err(e),
    };
    let x_coordinates = match parse_coordinates(parser, &flags, FLAG_X_IS_BYTE, FLAG_X_POSITIVE) {
        Ok(v) => v,
        Err(e) => return Err(e),
    };
    let y_coordinates = match parse_coordinates(parser, &flags, FLAG_Y_IS_BYTE, FLAG_Y_POSITIVE) {
        Ok(v) => v,
        Err(e) => return Err(e),
    };
    Ok(
        GlyphOutline::Simple(
            SimpleGlyphOutline {
                number_of_contours,
                x_min,
                y_min,
                x_max,
                y_max,
                end_pts_of_contours,
                instruction_length,
                instructions,
                flags,
                x_coordinates,
                y_coordinates,
            },
        ),
    )
}

/// Entry `i` of a `loca` table at `off`: byte offsets into glyf, stored
/// halved as u16 in the short format (0) and whole as u32 in the long
/// format (1).
pub open spec fn spec_loca_entry(b: Seq<u8>, off: int, fmt: int, i: int) -> int {
    if fmt == 0 {
        2 * be_u16_at(b, off + 2 * i)
    } else {
        be_u32_at(b, off + 4 * i)
    }
}

/// The `num_glyphs + 1` glyph offsets of a `loca` table at `off`.
pub open spec fn spec_loca_entries(b: Seq<u8>, off: int, fmt: int, num_glyphs: int) -> Seq<u32> {
    Seq::new((num_glyphs + 1) as nat, |i: int| spec_loca_entry(b, off, fmt, i) as u32)
}

/// Outcome of locating the `loca` table: its byte position when the
/// format is known, its record exists and all entries are in range.
pub open spec fn spec_locate_loca(
    b: Seq<u8>,
    dir_records: Seq<TableDirectorySubtable>,
    num_glyphs: int,
    fmt: int,
) -> Result<int, ErrorCode> {
    if fmt != 0 && fmt != 1 {
        Err(ErrorCode::InvalidArgument)
    } else {
        match spec_find_record(dir_records, TAG_LOCA) {
            None => Err(ErrorCode::NotFound),
            Some(rec) => {
                let entry_size = if fmt == 0 {
                    2int
                } else {
                    4int
                };
                if rec.offset + entry_size * (num_glyphs + 1) > b.len() {
                    Err(ErrorCode::OutOfRange)
                } else {
                    Ok(rec.offset as int)
                }
            },
        }
    }
}

/// Locates `loca` through the directory and reads the `num_glyphs + 1`
/// glyph offsets, in the entry width `index_to_loc_format` selects. Short
/// entries come back doubled, so every returned value is a byte offset
/// into glyf.
pub fn parse_loca_table(
    parser: &mut ByteParser,
    font_directory_table: &FontDirectoryTable,
    num_glyphs: u16,
    index_to_loc_format: i16,
) -> (r: Result<Vec<u32>, CapyError>)
    requires
        old(parser).wf(),
    ensures
        final(parser).bytes() == old(parser).bytes(),
        final(parser).wf(),
        match r {
            Ok(v) => {
                &&& spec_locate_loca(
                    old(parser).bytes(),
                    font_directory_table.table_directory_subtables@,
                    num_glyphs as int,
                    index_to_loc_format as int,
                ) matches Ok(off) && v@ == spec_loca_entries(
                    old(parser).bytes(),
                    off,
                    index_to_loc_format as int,
                    num_glyphs as int,
                )
            },
            Err(e) => spec_locate_loca(
                old(parser).bytes(),
                font_directory_table.table_directory_subtables@,
                num_glyphs as int,
                index_to_loc_format as int,
            ) matches Err(c) && c == e.code,
        },
{
    let ghost b = old(parser).bytes();
    let ghost dir_records = font_directory_table.table_directory_subtables@;
    if index_to_loc_format != 0 && index_to_loc_format != 1 {
        return Err(CapyError::new(ErrorCode::InvalidArgument, "unknown loca entry format"));
    }
    let loca_offset = match lookup_offset_for_tag(TAG_LOCA, font_directory_table) {
        Ok(off) => off,
        Err(e) => return Err(e),
    };
    match parser.set_offset(loca_offset) {
        Ok(()) => (),
        Err(e) => return Err(e),
    }
    let entry_count: usize = num_glyphs as usize + 1;
    let ghost fmt = index_to_loc_format as int;
    let mut offsets: Vec<u32> = Vec::new();
    let mut i: usize = 0;
    while i < entry_count
        invariant
            i <= entry_count,
            entry_count == num_glyphs + 1,
            parser.wf(),
            parser.bytes() == b,
            b == old(parser).bytes(),
            fmt == index_to_loc_format as int,
            fmt == 0 || fmt == 1,
            dir_records == font_directory_table.table_directory_subtables@,
            spec_find_record(dir_records, TAG_LOCA) matches Some(rc) && rc.offset == loca_offset,
            loca_offset <= b.len(),
            parser.pos() == loca_offset + (if fmt == 0 {
                2int
            } else {
                4int
            }) * i,
            offsets@.len() == i,
            forall|j: int|
                0 <= j < i ==> offsets@[j] == spec_loca_entry(b, loca_offset as int, fmt, j),
        decreases entry_count - i,
    {
        if index_to_loc_format == 0 {
            let v = match parser.read_be_u16() {
                Ok(v) => v,
                Err(e) => return Err(e),
            };
            offsets.push((v as u32) * 2);
        } else {
            let v = match parser.read_be_u32() {
                Ok(v) => v,
                Err(e) => return Err(e),
            };
            offsets.push(v);
        }
        i = i + 1;
    }
    proof {
        assert(offsets@ =~= spec_loca_entries(b, loca_offset as int, fmt, num_glyphs as int));
    }
    Ok(offsets)
}

/// Outcome of decoding the first `n` glyphs, each at its `loca` offset
/// from the start of glyf; the first failing glyph decides the error.
pub open spec fn spec_glyphs_outcome(b: Seq<u8>, glyf_off: int, loca: Seq<u32>, n: int) -> Result<
    (),
    ErrorCode,
>
    decreases n,
{
    if n <= 0 {
        Ok(())
    } else {
        match spec_glyphs_outcome(b, glyf_off, loca, n - 1) {
            Err(c) => Err(c),
            Ok(()) => match spec_glyph_outcome(b, glyf_off + loca[n - 1]) {
                Err(c) => Err(c),
                Ok(_) => Ok(()),
            },
        }
    }
}

/// A prefix of glyphs that decodes, followed by a glyph that fails,
/// decides the outcome of the whole run.
proof fn lemma_glyphs_outcome_err(
    b: Seq<u8>,
    glyf_off: int,
    loca: Seq<u32>,
    n: int,
    i: int,
    c: ErrorCode,
)
    requires
        0 <= i < n,
        spec_glyphs_outcome(b, glyf_off, loca, i) is Ok,
        spec_glyph_outcome(b, glyf_off + loca[i]) == Err::<int, ErrorCode>(c),
    ensures
        spec_glyphs_outcome(b, glyf_off, loca, n) == Err::<(), ErrorCode>(c),
    decreases n,
{
    if i < n - 1 {
        lemma_glyphs_outcome_err(b, glyf_off, loca, n - 1, i, c);
    }
}

/// Outcome of the whole glyf stage: locating `loca`, locating `glyf`, and
/// decoding one glyph per `loca` entry.
pub open spec fn spec_glyf_outcome(
    b: Seq<u8>,
    dir_records: Seq<TableDirectorySubtable>,
    num_glyphs: int,
    fmt: int,
) -> Result<(), ErrorCode> {
    match spec_locate_loca(b, dir_records, num_glyphs, fmt) {
        Err(c) => Err(c),
        Ok(loca_off) => match spec_find_record(dir_records, TAG_GLYF) {
            None => Err(ErrorCode::NotFound),
            Some(rec) => spec_glyphs_outcome(
                b,
                rec.offset as int,
                spec_loca_entries(b, loca_off, fmt, num_glyphs),
                num_glyphs,
            ),
        },
    }
}

/// `t` holds one decoded glyph per `loca` entry, each matching the bytes
/// at its own offset into glyf.
pub open spec fn glyf_matches(
    b: Seq<u8>,
    dir_records: Seq<TableDirectorySubtable>,
    num_glyphs: int,
    fmt: int,
    t: GlyfTable,
) -> bool {
    &&& spec_locate_loca(b, dir_records, num_glyphs, fmt) matches Ok(loca_off) && (spec_find_record(
        dir_records,
        TAG_GLYF,
    ) matches Some(rec) && {
        let loca = spec_loca_entries(b, loca_off, fmt, num_glyphs);
        &&& t.glyphs@.len() == num_glyphs
        &&& forall|i: int|
            0 <= i < num_glyphs ==> glyph_matches(b, rec.offset + loca[i], t.glyphs@[i])
        &&& forall|i: int| 0 <= i < num_glyphs ==> t.glyphs@[i].wf()
    })
}

/// Reads the `loca` offset index, locates glyf, and decodes one glyph per
/// `loca` entry — `num_glyphs` of them, as `maxp` declared. Compound
/// glyphs are classified and skipped over, not decoded, so decoding
/// continues with the glyph after them. Open question: two adjacent equal
/// `loca` entries mean a glyph with no outline data; such a glyph is
/// decoded at its shared offset like any other, with no empty variant of
/// its own yet.
#[verifier::rlimit(100)]
pub fn parse_glyf_table(
    parser: &mut ByteParser,
    font_directory_table: &FontDirectoryTable,
    num_glyphs: u16,
    index_to_loc_format: i16,
) -> (r: Result<GlyfTable, CapyError>)
    requires
        old(parser).wf(),
    ensures
        final(parser).bytes() == old(parser).bytes(),
        final(parser).wf(),
        match r {
            Ok(t) => {
                &&& spec_glyf_outcome(
                    old(parser).bytes(),
                    font_directory_table.table_directory_subtables@,
                    num_glyphs as int,
                    index_to_loc_format as int,
                ) is Ok
                &&& glyf_matches(
                    old(parser).bytes(),
                    font_directory_table.table_directory_subtables@,
                    num_glyphs as int,
                    index_to_loc_format as int,
                    t,
                )
            },
            Err(e) => spec_glyf_outcome(
                old(parser).bytes(),
                font_directory_table.table_directory_subtables@,
                num_glyphs as int,
                index_to_loc_format as int,
            ) matches Err(c) && c == e.code,
        },
{
    let ghost b = old(parser).bytes();
    let ghost dir_records = font_directory_table.table_directory_subtables@;
    let ghost fmt = index_to_loc_format as int;
    let loca = match parse_loca_table(parser, font_directory_table, num_glyphs, index_to_loc_format) {
        Ok(v) => v,
        Err(e) => return Err(e),
    };
    let glyf_offset = match lookup_offset_for_tag(TAG_GLYF, font_directory_table) {
        Ok(off) => off,
        Err(e) => return Err(e),
    };
    let ghost loca_seq = loca@;
    let buffer_len: usize = parser.buffer.len();
    let n = num_glyphs as usize;
    let mut glyphs: Vec<GlyphOutline> = Vec::new();
    let mut i: usize = 0;
    while i < n
        invariant
            i <= n,
            n == num_glyphs,
            parser.wf(),
            parser.bytes() == b,
            b == old(parser).bytes(),
            b.len() == buffer_len,
            dir_records == font_directory_table.table_directory_subtables@,
            fmt == index_to_loc_format as int,
            spec_locate_loca(b, dir_records, n as int, fmt) matches Ok(loca_off) && loca_seq
                == spec_loca_entries(b, loca_off, fmt, n as int),
            loca@ == loca_seq,
            loca_seq.len() == n + 1,
            spec_find_record(dir_records, TAG_GLYF) matches Some(rec) && rec.offset == glyf_offset,
            spec_glyphs_outcome(b, glyf_offset as int, loca_seq, i as int) is Ok,
            glyphs@.len() == i,
            forall|j: int|
                0 <= j < i ==> glyph_matches(b, glyf_offset + loca_seq[j], glyphs@[j]),
            forall|j: int| 0 <= j < i ==> glyphs@[j].wf(),
        decreases n - i,
    {
        let entry = loca[i];
        let target = match glyf_offset.checked_add(entry as usize) {
            Some(t) => t,
            None => {
                proof {
                    lemma_glyphs_outcome_err(
                        b,
                        glyf_offset as int,
                        loca_seq,
                        n as int,
                        i as int,
                        ErrorCode::OutOfRange,
                    );
                }
                return Err(CapyError::new(ErrorCode::OutOfRange, "glyph offset exceeds buffer"));
            },
        };
        match parser.set_offset(target) {
            Ok(()) => (),
            Err(e) => {
                proof {
                    lemma_glyphs_outcome_err(
                        b,
                        glyf_offset as int,
                        loca_seq,
                        n as int,
                        i as int,
                        ErrorCode::OutOfRange,
                    );
                }
                return Err(e);
            },
        }
        let glyph = match parse_glyph_subtable(parser) {
            Ok(g) => g,
            Err(e) => {
                proof {
                    lemma_glyphs_outcome_err(
                        b,
                        glyf_offset as int,
                        loca_seq,
                        n as int,
                        i as int,
                        e.code,
                    );
                }
                return Err(e);
            },
        };
        glyphs.push(glyph);
        i = i + 1;
    }
    proof {
        assert(spec_glyf_outcome(b, dir_records, n as int, fmt) is Ok);
    }
    Ok(GlyfTable { glyphs })
}

} // verus!
