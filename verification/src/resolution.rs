//! The resolution calculator: derives the acquisition spatial resolution from
//! the matrix string, the row and column counts, and the pixel spacing.
//!
//! All numbers are read as fixed-point decimals with four decimal places and
//! combined exactly: field of view = spacing times count (eight decimal
//! places), resolution = field of view divided by the matrix count, truncated.
//! A value that does not read as a decimal counts as zero — deliberate
//! best-effort leniency, not an error — and a zero matrix count yields the
//! "inf"/"NaN" renderings rather than a failure.
use crate::matrix::{spec_extract_pair, spec_matrix_parse, DicomAcqMatrix};
use crate::text::{
    append_scaled8, parse_dec4_range, spec_dec4, spec_render_scaled8, spec_split, split_ranges,
};
use vstd::prelude::*;

verus! {

use vstd::string::StringExecFns;

/// The value of a decimal string, zero when it does not parse.
pub open spec fn dec4_or_zero(s: Seq<char>) -> int {
    match spec_dec4(s) {
        None => 0,
        Some(v) => v,
    }
}

/// The rendering of one axis: spacing times count, divided by the matrix
/// count. A zero matrix count yields "inf" (or "NaN" when the field of view
/// is zero too); a negative value is rendered with a leading minus unless the
/// truncated magnitude is zero.
pub open spec fn spec_axis_resolution(spacing4: int, count4: int, mtx: u32) -> Seq<char> {
    let prod = spacing4 * count4;
    let neg = prod < 0;
    let mag = (if neg {
        -prod
    } else {
        prod
    }) as nat;
    if mtx == 0 {
        if mag == 0 {
            "NaN"@
        } else if neg {
            "-inf"@
        } else {
            "inf"@
        }
    } else {
        let v8 = mag / (mtx as nat);
        if neg && v8 != 0 {
            "-"@ + spec_render_scaled8(v8)
        } else {
            spec_render_scaled8(v8)
        }
    }
}

/// What the resolution calculator yields: "N/A" when the matrix string does
/// not parse, and otherwise the two axis renderings joined as
/// "`<row> x <column> mm`".
pub open spec fn spec_acq_resolution(
    mtx: Seq<char>,
    rows: Seq<char>,
    cols: Seq<char>,
    spacing: Seq<char>,
) -> Seq<char> {
    match spec_matrix_parse(mtx) {
        Err(_) => "N/A"@,
        Ok(v) => {
            let pair = spec_extract_pair(v.0, v.1, v.2, v.3);
            let sp = spec_split(spacing, '\\');
            let sp_row = dec4_or_zero(sp[0]);
            let sp_col = if sp.len() >= 2 {
                dec4_or_zero(sp[1])
            } else {
                0
            };
            let r4 = dec4_or_zero(rows);
            let c4 = dec4_or_zero(cols);
            spec_axis_resolution(sp_row, r4, pair.0) + " x "@ + spec_axis_resolution(
                sp_col,
                c4,
                pair.1,
            ) + " mm"@
        },
    }
}

/// Read the range as a decimal, zero when it does not parse.
fn dec4_or_zero_range(s: &str, lo: usize, hi: usize) -> (r: i64)
    requires
        lo <= hi <= s@.len(),
    ensures
        r as int == dec4_or_zero(s@.subrange(lo as int, hi as int)),
        -10000000000009999 <= r <= 10000000000009999,
{
    match parse_dec4_range(s, lo, hi) {
        None => 0,
        Some(v) => v,
    }
}

/// Append the rendering of one axis to `out`.
fn axis_resolution(out: &mut String, spacing4: i64, count4: i64, mtx: u32)
    requires
        -10000000000009999 <= spacing4 <= 10000000000009999,
        -10000000000009999 <= count4 <= 10000000000009999,
    ensures
        final(out)@ == old(out)@ + spec_axis_resolution(spacing4 as int, count4 as int, mtx),
{
    proof {
        assert((spacing4 as int) * (count4 as int) <= 10000000000009999 * 10000000000009999
            && (spacing4 as int) * (count4 as int) >= -(10000000000009999
            * 10000000000009999)) by (nonlinear_arith)
            requires
                -10000000000009999 <= spacing4 <= 10000000000009999,
                -10000000000009999 <= count4 <= 10000000000009999,
        ;
    }
    let prod: i128 = (spacing4 as i128) * (count4 as i128);
    let neg = prod < 0;
    let mag: u128 = if neg {
        (-prod) as u128
    } else {
        prod as u128
    };
    if mtx == 0 {
        if mag == 0 {
            out.append("NaN");
        } else if neg {
            out.append("-inf");
        } else {
            out.append("inf");
        }
    } else {
        let v8: u128 = mag / (mtx as u128);
        if neg && v8 != 0 {
            out.append("-");
            append_scaled8(out, v8);
            proof {
                assert(out@ =~= old(out)@ + ("-"@ + spec_render_scaled8(v8 as nat)));
            }
        } else {
            append_scaled8(out, v8);
        }
    }
}

/// Derive the acquisition spatial resolution for display.
///
/// The matrix string must parse as an acquisition matrix; when it does not,
/// the sentinel "N/A" is the result. The row count, column count and the two
/// backslash-delimited pixel spacings are each read as a decimal number, with
/// zero substituted for anything unreadable (or missing): per axis the field
/// of view is spacing times count, and the resolution is the field of view
/// divided by the matrix count, rendered exactly with at most eight decimal
/// places.
pub fn calculate_acq_resolution(
    acq_mtx: String,
    dcm_rows: String,
    dcm_cols: String,
    pixel_spacing: String,
) -> (r: String)
    ensures
        r@ == spec_acq_resolution(acq_mtx@, dcm_rows@, dcm_cols@, pixel_spacing@),
{
    let m = match DicomAcqMatrix::parse(acq_mtx.as_str()) {
        Ok(m) => m,
        Err(_) => {
            return "N/A".to_owned();
        },
    };
    let pair = m.extract_pair();
    let spacing_str = pixel_spacing.as_str();
    let sp = split_ranges(spacing_str, '\\');
    proof {
        crate::text::lemma_split_nonempty(spacing_str@, '\\');
        assert(sp@.len() == spec_split(spacing_str@, '\\').len());
        assert(sp@.len() >= 1);
        assert(sp@[0].0 <= sp@[0].1 <= spacing_str@.len());
        assert(sp@[0].0 <= sp@[0].1 <= spacing_str@.len() && spacing_str@.subrange(
            sp@[0].0 as int,
            sp@[0].1 as int,
        ) == spec_split(spacing_str@, '\\')[0]);
        assert(sp@.len() >= 2 ==> sp@[1].0 <= sp@[1].1 <= spacing_str@.len()
            && spacing_str@.subrange(sp@[1].0 as int, sp@[1].1 as int) == spec_split(
            spacing_str@,
            '\\',
        )[1]);
        assert(spec_split(spacing_str@, '\\') == spec_split(pixel_spacing@, '\\'));
    }
    let sp_row = dec4_or_zero_range(spacing_str, sp[0].0, sp[0].1);
    let sp_col = if sp.len() >= 2 {
        dec4_or_zero_range(spacing_str, sp[1].0, sp[1].1)
    } else {
        0
    };
    let rows_n = dcm_rows.as_str().unicode_len();
    let r4 = dec4_or_zero_range(dcm_rows.as_str(), 0, rows_n);
    let cols_n = dcm_cols.as_str().unicode_len();
    let c4 = dec4_or_zero_range(dcm_cols.as_str(), 0, cols_n);
    proof {
        assert(dcm_rows@.subrange(0, dcm_rows@.len() as int) =~= dcm_rows@);
        assert(dcm_cols@.subrange(0, dcm_cols@.len() as int) =~= dcm_cols@);
    }
    let mut out = String::new();
    axis_resolution(&mut out, sp_row, r4, pair.0);
    out.append(" x ");
    axis_resolution(&mut out, sp_col, c4, pair.1);
    out.append(" mm");
    proof {
        assert(out@ =~= spec_acq_resolution(acq_mtx@, dcm_rows@, dcm_cols@, pixel_spacing@));
    }
    out
}

} // verus!
