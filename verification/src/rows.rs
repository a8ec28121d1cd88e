//! Row addressing over a bottom-to-top pixel buffer.
//!
//! The byte buffer stores its rows bottom-to-top, while the public API
//! numbers rows top-to-bottom (row 0 is the visually topmost row). The
//! inversion `height - 1 - n` is kept in one place here, together with the
//! facts the accessors need about it: which byte segment a visual row is,
//! what writing a row does to the buffer, and that the two compose.

use vstd::arithmetic::div_mod::lemma_fundamental_div_mod;
use vstd::prelude::*;

verus! {

/// The physical (bottom-left-origin) row that visual (top-left-origin) row
/// `n` denotes.
pub open spec fn spec_phys_row(height: int, n: int) -> int {
    height - 1 - n
}

/// Visual row `n` of a buffer of `height` rows of `row_len` bytes each,
/// stored bottom-to-top.
pub open spec fn spec_row_of(bytes: Seq<u8>, height: int, row_len: int, n: int) -> Seq<u8> {
    bytes.subrange(
        spec_phys_row(height, n) * row_len,
        spec_phys_row(height, n) * row_len + row_len,
    )
}

/// `bytes` with visual row `n` replaced by `data`.
pub open spec fn spec_write_row(
    bytes: Seq<u8>,
    height: int,
    row_len: int,
    n: int,
    data: Seq<u8>,
) -> Seq<u8> {
    Seq::new(
        bytes.len(),
        |i: int|
            if spec_phys_row(height, n) * row_len <= i < spec_phys_row(height, n) * row_len
                + row_len {
                data[i - spec_phys_row(height, n) * row_len]
            } else {
                bytes[i]
            },
    )
}

/// `bytes` with every visual row `n` replaced by `rows[n]`. Bytes past the
/// covered rows stay as they are; a zero `row_len` leaves everything as it
/// is (there are no rows to speak of).
pub open spec fn spec_write_rows(bytes: Seq<u8>, row_len: int, rows: Seq<Seq<u8>>) -> Seq<u8> {
    if row_len <= 0 {
        bytes
    } else {
        Seq::new(
            bytes.len(),
            |i: int|
                {
                    let vis = rows.len() - 1 - i / row_len;
                    if 0 <= vis < rows.len() {
                        rows[vis][i % row_len]
                    } else {
                        bytes[i]
                    }
                },
        )
    }
}

/// The byte segment of physical row `p` lies inside a buffer of `h` rows.
pub proof fn lemma_segment_in_bounds(h: int, rl: int, p: int)
    by (nonlinear_arith)
    requires
        0 <= rl,
        0 <= p < h,
    ensures
        0 <= p * rl,
        p * rl + rl <= h * rl,
{
}

/// Distinct physical rows occupy disjoint byte segments.
pub proof fn lemma_segments_disjoint(p1: int, p2: int, rl: int)
    by (nonlinear_arith)
    requires
        0 <= rl,
        p1 < p2,
    ensures
        p1 * rl + rl <= p2 * rl,
{
}

/// The grouping of the buffer size: bytes-per-pixel times width times
/// height, as the size is computed, is height times the row length.
pub proof fn lemma_size_grouping(w: int, h: int, bpp: int)
    by (nonlinear_arith)
    ensures
        bpp * w * h == h * (bpp * w),
        1 <= h ==> bpp * w <= bpp * w * h || bpp * w < 0,
{
}

/// Where byte `i` falls: its physical row `i / rl` and its offset
/// `i % rl` within that row.
pub proof fn lemma_byte_position(i: int, h: int, rl: int)
    requires
        0 < rl,
        0 <= i < h * rl,
    ensures
        0 <= i / rl < h,
        (i / rl) * rl <= i < (i / rl) * rl + rl,
        i % rl == i - (i / rl) * rl,
{
    lemma_fundamental_div_mod(i, rl);
    assert(rl * (i / rl) == (i / rl) * rl) by (nonlinear_arith);
    assert(0 <= i % rl < rl) by (nonlinear_arith)
        requires 0 < rl && 0 <= i;
    assert(i / rl < h) by (nonlinear_arith)
        requires 0 < rl && rl * (i / rl) + i % rl < h * rl && 0 <= i % rl;
    assert(0 <= i / rl) by (nonlinear_arith)
        requires 0 < rl && rl * (i / rl) + i % rl >= 0 && i % rl < rl;
}

/// A buffer of `h` whole rows divides into exactly `h` chunks of `rl`.
pub proof fn lemma_whole_rows(h: int, rl: int)
    by (nonlinear_arith)
    requires
        0 < rl,
        0 <= h,
    ensures
        (h * rl) % rl == 0,
        (h * rl) / rl == h,
{
}

/// Round trip: writing a pattern into visual row `n` and reading visual
/// row `n` back yields exactly the pattern.
pub proof fn lemma_row_roundtrip(bytes: Seq<u8>, height: int, row_len: int, n: int, data: Seq<u8>)
    requires
        0 <= n < height,
        0 <= row_len,
        data.len() == row_len,
        bytes.len() == height * row_len,
    ensures
        spec_row_of(spec_write_row(bytes, height, row_len, n, data), height, row_len, n) == data,
{
    let p = spec_phys_row(height, n);
    lemma_segment_in_bounds(height, row_len, p);
    assert(spec_row_of(spec_write_row(bytes, height, row_len, n, data), height, row_len, n)
        =~= data);
}

/// Writing one visual row leaves every other visual row as it was.
pub proof fn lemma_write_row_frame(
    bytes: Seq<u8>,
    height: int,
    row_len: int,
    n: int,
    data: Seq<u8>,
    m: int,
)
    requires
        0 <= n < height,
        0 <= m < height,
        m != n,
        0 <= row_len,
        data.len() == row_len,
        bytes.len() == height * row_len,
    ensures
        spec_row_of(spec_write_row(bytes, height, row_len, n, data), height, row_len, m)
            == spec_row_of(bytes, height, row_len, m),
{
    let pn = spec_phys_row(height, n);
    let pm = spec_phys_row(height, m);
    lemma_segment_in_bounds(height, row_len, pn);
    lemma_segment_in_bounds(height, row_len, pm);
    if pn < pm {
        lemma_segments_disjoint(pn, pm, row_len);
    } else {
        lemma_segments_disjoint(pm, pn, row_len);
    }
    assert(spec_row_of(spec_write_row(bytes, height, row_len, n, data), height, row_len, m)
        =~= spec_row_of(bytes, height, row_len, m));
}

/// Orientation: visual row 0 is the last physical row segment of the
/// buffer, and visual row `height - 1` is the first.
pub proof fn lemma_orientation(bytes: Seq<u8>, height: int, row_len: int)
    requires
        1 <= height,
        0 <= row_len,
        bytes.len() == height * row_len,
    ensures
        spec_row_of(bytes, height, row_len, 0) == bytes.subrange(
            (height - 1) * row_len,
            (height - 1) * row_len + row_len,
        ),
        spec_row_of(bytes, height, row_len, height - 1) == bytes.subrange(0, row_len),
{
    assert(spec_phys_row(height, height - 1) == 0);
    assert(0 * row_len == 0) by (nonlinear_arith);
}

/// A buffer whose every visual row reads as `rows[n]` is exactly the
/// buffer `spec_write_rows` describes, whatever it held before.
pub proof fn lemma_write_rows_agree(
    bytes0: Seq<u8>,
    bytes1: Seq<u8>,
    height: int,
    row_len: int,
    rows: Seq<Seq<u8>>,
)
    requires
        0 < row_len,
        rows.len() == height,
        bytes0.len() == height * row_len,
        bytes1.len() == height * row_len,
        forall|n: int| 0 <= n < height ==> (#[trigger] rows[n]).len() == row_len,
        forall|n: int|
            0 <= n < height ==> spec_row_of(bytes1, height, row_len, n) == #[trigger] rows[n],
    ensures
        bytes1 == spec_write_rows(bytes0, row_len, rows),
{
    let w = spec_write_rows(bytes0, row_len, rows);
    assert forall|i: int| 0 <= i < bytes1.len() implies bytes1[i] == w[i] by {
        lemma_byte_position(i, height, row_len);
        let p = i / row_len;
        let vis = height - 1 - p;
        lemma_segment_in_bounds(height, row_len, p);
        assert(spec_row_of(bytes1, height, row_len, vis) == rows[vis]);
        assert(rows[vis][i % row_len] == spec_row_of(bytes1, height, row_len, vis)[i - p
            * row_len]);
        assert(spec_row_of(bytes1, height, row_len, vis)[i - p * row_len] == bytes1[i]);
    }
    assert(bytes1 =~= w);
}

} // verus!
