use vstd::prelude::*;

verus! {

/// The consecutive sub-batch boundaries used by the local backend: texts are
/// split into groups of at most `batch_size` before each forward pass. The
/// result is a list of half-open ranges that partition `0..n` in order, every
/// range of length `batch_size` except possibly the last.
pub fn chunk_ranges(n: usize, batch_size: usize) -> (r: Vec<(usize, usize)>)
    requires
        batch_size >= 1,
    ensures
        n == 0 <==> r@.len() == 0,
        r@.len() > 0 ==> r@[0].0 == 0,
        r@.len() > 0 ==> r@[r@.len() - 1].1 == n,
        forall|i: int| 0 <= i < r@.len() - 1 ==> #[trigger] r@[i].1 == r@[i + 1].0,
        forall|i: int|
            0 <= i < r@.len() ==> (#[trigger] r@[i]).0 < r@[i].1 && r@[i].1 <= n,
        forall|i: int| 0 <= i < r@.len() - 1 ==> #[trigger] r@[i].1 - r@[i].0 == batch_size,
        forall|i: int| 0 <= i < r@.len() ==> (#[trigger] r@[i]).1 - r@[i].0 <= batch_size,
    {
    let mut r: Vec<(usize, usize)> = Vec::new();
    let mut start: usize = 0;
    while start < n
        invariant
            batch_size >= 1,
            start <= n,
            r@.len() == 0 <==> start == 0,
            r@.len() > 0 ==> r@[0].0 == 0,
            r@.len() > 0 ==> r@[r@.len() - 1].1 == start,
            forall|i: int| 0 <= i < r@.len() - 1 ==> #[trigger] r@[i].1 == r@[i + 1].0,
            forall|i: int|
                0 <= i < r@.len() ==> (#[trigger] r@[i]).0 < r@[i].1 && r@[i].1 <= n,
            forall|i: int| 0 <= i < r@.len() - 1 ==> #[trigger] r@[i].1 - r@[i].0 == batch_size,
            forall|i: int| 0 <= i < r@.len() ==> (#[trigger] r@[i]).1 - r@[i].0 <= batch_size,
            start == n || r@.len() == 0 || r@[r@.len() - 1].1 - r@[r@.len() - 1].0
                == batch_size,
        decreases n - start,
    {
        let end = if n - start <= batch_size {
            n
        } else {
            start + batch_size
        };
        r.push((start, end));
        start = end;
    }
    r
}

/// The padding target the local backend uses for one sub-batch: the longest
/// row's length, or 1 when the sub-batch is empty.
pub fn max_row_len(rows: &Vec<Vec<u32>>) -> (m: usize)
    ensures
        rows@.len() == 0 ==> m == 1,
        forall|i: int| 0 <= i < rows@.len() ==> (#[trigger] rows@[i])@.len() <= m,
        rows@.len() > 0 ==> exists|i: int| 0 <= i < rows@.len() && (#[trigger] rows@[i])@.len() == m,
{
    if rows.len() == 0 {
        return 1;
    }
    let mut m: usize = rows[0].len();
    let mut k: usize = 1;
    while k < rows.len()
        invariant
            1 <= k <= rows@.len(),
            forall|i: int| 0 <= i < k ==> (#[trigger] rows@[i])@.len() <= m,
            exists|i: int| 0 <= i < k && (#[trigger] rows@[i])@.len() == m,
        decreases rows@.len() - k,
    {
        if rows[k].len() > m {
            m = rows[k].len();
        }
        k = k + 1;
    }
    m
}

/// Pad every row to `target` elements by appending zeroes, as the local
/// backend pads token ids and attention masks to the longest sequence in a
/// sub-batch. Existing elements are kept in place.
pub fn pad_rows(rows: &Vec<Vec<u32>>, target: usize) -> (r: Vec<Vec<u32>>)
    requires
        forall|i: int| 0 <= i < rows@.len() ==> (#[trigger] rows@[i])@.len() <= target,
    ensures
        r@.len() == rows@.len(),
        forall|i: int| 0 <= i < r@.len() ==> (#[trigger] r@[i])@.len() == target,
        forall|i: int, j: int|
            0 <= i < rows@.len() && 0 <= j < rows@[i]@.len() ==> #[trigger] r@[i]@[j] == rows@[i]@[j],
        forall|i: int, j: int|
            0 <= i < rows@.len() && rows@[i]@.len() <= j < target ==> #[trigger] r@[i]@[j] == 0,
{
    let mut r: Vec<Vec<u32>> = Vec::new();
    let mut k: usize = 0;
    while k < rows.len()
        invariant
            k <= rows@.len(),
            r@.len() == k,
            forall|i: int| 0 <= i < rows@.len() ==> (#[trigger] rows@[i])@.len() <= target,
            forall|i: int| 0 <= i < k ==> (#[trigger] r@[i])@.len() == target,
            forall|i: int, j: int|
                0 <= i < k && 0 <= j < rows@[i]@.len() ==> #[trigger] r@[i]@[j] == rows@[i]@[j],
            forall|i: int, j: int|
                0 <= i < k && rows@[i]@.len() <= j < target ==> #[trigger] r@[i]@[j] == 0,
        decreases rows@.len() - k,
    {
        let mut row: Vec<u32> = rows[k].clone();
        proof {
            assert(row@ =~= rows@[k as int]@);
        }
        while row.len() < target
            invariant
                row@.len() <= target,
                forall|j: int|
                    0 <= j < rows@[k as int]@.len() ==> #[trigger] row@[j] == rows@[k as int]@[j],
                rows@[k as int]@.len() <= row@.len(),
                forall|j: int|
                    rows@[k as int]@.len() <= j < row@.len() ==> #[trigger] row@[j] == 0,
            decreases target - row@.len(),
        {
            row.push(0);
        }
        r.push(row);
        k = k + 1;
    }
    r
}

/// Flatten equal-length rows into one row-major sequence, the layout the local
/// backend hands to tensor construction.
pub fn flatten_rows(rows: &Vec<Vec<u32>>) -> (r: Vec<u32>)
    ensures
        r@ == rows.deep_view().flatten(),
{
    let mut r: Vec<u32> = Vec::new();
    let mut k: usize = 0;
    proof {
        assert(rows.deep_view().subrange(0, 0) =~= Seq::<Seq<u32>>::empty());
        assert(r@ =~= Seq::<Seq<u32>>::empty().flatten());
    }
    while k < rows.len()
        invariant
            k <= rows@.len(),
            r@ == rows.deep_view().subrange(0, k as int).flatten(),
        decreases rows@.len() - k,
    {
        let row = &rows[k];
        let mut j: usize = 0;
        while j < row.len()
            invariant
                j <= row@.len(),
                k < rows@.len(),
                row@ == rows@[k as int]@,
                r@ == rows.deep_view().subrange(0, k as int).flatten() + row@.subrange(
                    0,
                    j as int,
                ),
            decreases row@.len() - j,
        {
            r.push(row[j]);
            proof {
                assert(row@.subrange(0, j + 1) =~= row@.subrange(0, j as int).push(row@[j as int]));
            }
            j = j + 1;
        }
        proof {
            let pre = rows.deep_view().subrange(0, k as int);
            assert(row@.subrange(0, row@.len() as int) =~= rows.deep_view()[k as int]);
            assert(rows.deep_view().subrange(0, k + 1) =~= pre.push(rows.deep_view()[k as int]));
            pre.lemma_flatten_push(rows.deep_view()[k as int]);
        }
        k = k + 1;
    }
    proof {
        assert(rows.deep_view().subrange(0, rows@.len() as int) =~= rows.deep_view());
    }
    r
}

} // verus!
