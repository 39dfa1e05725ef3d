//! The acquisition-matrix value object: exactly four non-negative integers
//! parsed from a backslash-delimited string, of which either the first and
//! fourth or the second and third are zero.
use crate::text::{
    parse_u32_range, spec_parse_u32, spec_split, spec_trim, split_ranges, trim_range,
};
use vstd::prelude::*;

verus! {

/// Why parsing an acquisition-matrix string failed.
#[derive(Clone, Copy, Debug, PartialEq, Eq, Structural)]
pub enum MatrixParseError {
    /// The string does not split into exactly four parts.
    WrongArity,
    /// Some part does not read as an unsigned integer.
    BadNumber,
    /// Neither zero pattern holds.
    BadPattern,
}

/// The zero pattern that a well-formed acquisition matrix obeys: either the
/// first and fourth values are zero, or the second and third are.
pub open spec fn zero_pattern(a: u32, b: u32, c: u32, d: u32) -> bool {
    (a == 0 && d == 0) || (b == 0 && c == 0)
}

/// The four numbers of an acquisition-matrix string: the string split on
/// backslashes, each part trimmed and read as an unsigned integer. `None`
/// unless there are exactly four parts and all four read as integers.
pub open spec fn spec_matrix_numbers(s: Seq<char>) -> Option<(u32, u32, u32, u32)> {
    let ps = spec_split(s, '\\');
    if ps.len() != 4 {
        None
    } else {
        let p0 = spec_parse_u32(spec_trim(ps[0]));
        let p1 = spec_parse_u32(spec_trim(ps[1]));
        let p2 = spec_parse_u32(spec_trim(ps[2]));
        let p3 = spec_parse_u32(spec_trim(ps[3]));
        if p0 is None || p1 is None || p2 is None || p3 is None {
            None
        } else {
            Some((p0->Some_0, p1->Some_0, p2->Some_0, p3->Some_0))
        }
    }
}

/// What parsing an acquisition-matrix string yields.
pub open spec fn spec_matrix_parse(s: Seq<char>) -> Result<(u32, u32, u32, u32), MatrixParseError> {
    if spec_split(s, '\\').len() != 4 {
        Err(MatrixParseError::WrongArity)
    } else {
        match spec_matrix_numbers(s) {
            None => Err(MatrixParseError::BadNumber),
            Some(v) => {
                if zero_pattern(v.0, v.1, v.2, v.3) {
                    Ok(v)
                } else {
                    Err(MatrixParseError::BadPattern)
                }
            },
        }
    }
}

/// The two non-zero values of a well-formed matrix, in (row-direction,
/// column-direction) order.
pub open spec fn spec_extract_pair(a: u32, b: u32, c: u32, d: u32) -> (u32, u32) {
    if a == 0 && d == 0 {
        (b, c)
    } else {
        (a, d)
    }
}

/// An acquisition matrix: four non-negative integers obeying the zero
/// pattern. Only `parse` constructs one, so the pattern always holds.
#[derive(Clone, Copy, Debug)]
pub struct DicomAcqMatrix {
    pub values: (u32, u32, u32, u32),
}

impl DicomAcqMatrix {
    /// The constructor-enforced invariant: the zero pattern holds.
    pub open spec fn wf(&self) -> bool {
        zero_pattern(self.values.0, self.values.1, self.values.2, self.values.3)
    }

    /// Parse a backslash-delimited string of four integers, rejecting any
    /// string that does not split into exactly four integer parts or whose
    /// numbers break the zero pattern.
    pub fn parse(s: &str) -> (r: Result<DicomAcqMatrix, MatrixParseError>)
        ensures
            r matches Ok(m) ==> m.wf() && spec_matrix_parse(s@) == Ok::<_, MatrixParseError>(
                m.values,
            ),
            r matches Err(e) ==> spec_matrix_parse(s@) == Err::<(u32, u32, u32, u32), _>(e),
    {
        let parts = split_ranges(s, '\\');
        if parts.len() != 4 {
            return Err(MatrixParseError::WrongArity);
        }
        let (l0, h0) = trim_range(s, parts[0].0, parts[0].1);
        let (l1, h1) = trim_range(s, parts[1].0, parts[1].1);
        let (l2, h2) = trim_range(s, parts[2].0, parts[2].1);
        let (l3, h3) = trim_range(s, parts[3].0, parts[3].1);
        let n0 = parse_u32_range(s, l0, h0);
        let n1 = parse_u32_range(s, l1, h1);
        let n2 = parse_u32_range(s, l2, h2);
        let n3 = parse_u32_range(s, l3, h3);
        match (n0, n1, n2, n3) {
            (Some(a), Some(b), Some(c), Some(d)) => {
                proof {
                    assert(spec_matrix_numbers(s@) == Some((a, b, c, d)));
                }
                if (a == 0 && d == 0) || (b == 0 && c == 0) {
                    Ok(DicomAcqMatrix { values: (a, b, c, d) })
                } else {
                    Err(MatrixParseError::BadPattern)
                }
            },
            _ => {
                proof {
                    assert(spec_matrix_numbers(s@) is None);
                }
                Err(MatrixParseError::BadNumber)
            },
        }
    }

    /// The two non-zero values, in (row-direction, column-direction) order:
    /// the second and third values when the first and fourth are zero, and
    /// the first and fourth otherwise. Any other state cannot be constructed.
    pub fn extract_pair(&self) -> (r: (u32, u32))
        requires
            self.wf(),
        ensures
            r == spec_extract_pair(self.values.0, self.values.1, self.values.2, self.values.3),
    {
        if self.values.0 == 0 && self.values.3 == 0 {
            (self.values.1, self.values.2)
        } else if self.values.1 == 0 && self.values.2 == 0 {
            (self.values.0, self.values.3)
        } else {
            unreached()
        }
    }
}

} // verus!
