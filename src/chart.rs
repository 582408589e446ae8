use vstd::prelude::*;

verus! {

/// The fixed labels of the chart's time axis.
pub const TIME_MARKERS: [&'static str; 5] = ["9:30", "11:00", "1:00", "2:30", "4:00"];

/// The series index that column `i` of `w` shows, of a series of `n` points: the
/// nearest point at or before the column's share of the series.
pub open spec fn sample_index(i: int, n: int, w: int) -> int {
    (i * n) / w
}

proof fn lemma_sample_index_bounds(i: int, n: int, w: int)
    requires
        0 <= i < w,
        n >= 1,
    ensures
        0 <= sample_index(i, n, w) < n,
{
    assert(0 <= i * n) by (nonlinear_arith)
        requires
            0 <= i,
            n >= 1,
    ;
    assert(i * n < w * n) by (nonlinear_arith)
        requires
            0 <= i < w,
            n >= 1,
    ;
    assert((i * n) / w < n) by (nonlinear_arith)
        requires
            i * n < w * n,
            w > 0,
            0 <= i * n,
    ;
    assert(0 <= (i * n) / w) by (nonlinear_arith)
        requires
            0 <= i * n,
            w > 0,
    ;
}

/// Resamples a series to `width` columns: column `i` takes the value at index
/// `i * n / width` of the `n` values, with no averaging.
pub fn to_graph_data<T: Copy>(values: &Vec<T>, width: u16) -> (r: Vec<(u16, T)>)
    requires
        values.len() >= 1,
    ensures
        r.len() == width,
        forall|i: int|
            0 <= i < width ==> 0 <= #[trigger] sample_index(i, values.len() as int, width as int)
                < values.len(),
        forall|i: int|
            0 <= i < width ==> #[trigger] r@[i] == (i as u16, values@[sample_index(
                i,
                values.len() as int,
                width as int,
            )]),
{
    let n = values.len();
    let mut out: Vec<(u16, T)> = Vec::new();
    let mut i: u16 = 0;
    while i < width
        invariant
            i <= width,
            n == values.len() >= 1,
            out.len() == i,
            forall|k: int|
                0 <= k < i ==> 0 <= #[trigger] sample_index(k, n as int, width as int) < n,
            forall|k: int|
                0 <= k < i ==> #[trigger] out@[k] == (k as u16, values@[sample_index(
                    k,
                    n as int,
                    width as int,
                )]),
        decreases width - i,
    {
        proof {
            lemma_sample_index_bounds(i as int, n as int, width as int);
            assert((i as int) * (n as int) <= 0xffff * 0xffff_ffff_ffff_ffff) by (nonlinear_arith)
                requires
                    i <= 0xffff,
                    n <= 0xffff_ffff_ffff_ffff,
            ;
        }
        let prod: u128 = (i as u128) * (n as u128);
        let idx = (prod / (width as u128)) as usize;
        assert(idx == sample_index(i as int, n as int, width as int));
        let ghost before = out@;
        out.push((i, values[idx]));
        proof {
            assert forall|k: int| 0 <= k < i + 1 implies #[trigger] out@[k] == (
                k as u16,
                values@[sample_index(k, n as int, width as int)],
            ) by {
                if k < i {
                    assert(out@[k] == before[k]);
                } else {
                    assert(k == i);
                    assert(out@[k] == (i, values@[idx as int]));
                    assert((k as u16) == i);
                }
            }
        }
        i = i + 1;
    }
    out
}

} // verus!
