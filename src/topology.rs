//! Orthogonal neighbours of a cell on a rectangular grid stored row by row.
use vstd::prelude::*;
use vstd::arithmetic::div_mod::{
    lemma_fundamental_div_mod, lemma_fundamental_div_mod_converse, lemma_mod_pos_bound,
};

verus! {

/// A grid of `len` cells in rows of `width` cells forms a full rectangle.
pub open spec fn is_rectangle(len: int, width: int) -> bool {
    width > 0 && len % width == 0
}

/// The cell to the left, wrapping to the last column of the same row.
pub open spec fn wrap_left(len: int, width: int, i: int) -> int {
    if i % width == 0 { i + width - 1 } else { i - 1 }
}

/// The cell to the right, wrapping to the first column of the same row.
pub open spec fn wrap_right(len: int, width: int, i: int) -> int {
    if i % width == width - 1 { i + 1 - width } else { i + 1 }
}

/// The cell above, wrapping to the same column of the last row.
pub open spec fn wrap_up(len: int, width: int, i: int) -> int {
    if i >= width { i - width } else { len - width + i }
}

/// The cell below, wrapping to the same column of the first row.
pub open spec fn wrap_down(len: int, width: int, i: int) -> int {
    if i >= len - width { i % width } else { i + width }
}

/// The neighbours of cell `i`, in the order left, right, up, down. Without
/// wrapping, a direction that leaves the grid is left out.
pub open spec fn neighbor_indices(len: int, width: int, i: int, wrap: bool) -> Seq<int> {
    if wrap {
        seq![wrap_left(len, width, i), wrap_right(len, width, i), wrap_up(len, width, i), wrap_down(len, width, i)]
    } else {
        (if i % width > 0 { seq![i - 1] } else { Seq::<int>::empty() })
        + (if i % width < width - 1 { seq![i + 1] } else { Seq::<int>::empty() })
        + (if i >= width { seq![i - width] } else { Seq::<int>::empty() })
        + (if i + width < len { seq![i + width] } else { Seq::<int>::empty() })
    }
}

/// `n` holds the neighbours of cell `i` of `arr`, in order, each with its element.
pub open spec fn lists_neighbours<T>(arr: Seq<T>, width: int, i: int, wrap: bool, n: Seq<(usize, &T)>) -> bool {
    let nb = neighbor_indices(arr.len() as int, width, i, wrap);
    &&& n.len() == nb.len()
    &&& forall|k: int| 0 <= k < n.len() ==> {
        &&& (#[trigger] n[k]).0 as int == nb[k]
        &&& n[k].1 == arr[nb[k]]
    }
}

/// The neighbours of a cell depend on the grid's length and width, the
/// cell's index and the wrapping mode alone: two lists of them for the same
/// arguments are the same list.
pub proof fn lemma_neighbours_determined<T>(
    arr: Seq<T>,
    width: int,
    i: int,
    wrap: bool,
    n1: Seq<(usize, &T)>,
    n2: Seq<(usize, &T)>,
)
    requires
        lists_neighbours(arr, width, i, wrap, n1),
        lists_neighbours(arr, width, i, wrap, n2),
    ensures
        n1 == n2,
{
    assert forall|k: int| 0 <= k < n1.len() implies n1[k] == n2[k] by {
        assert(n1[k].0 == n2[k].0);
    }
    assert(n1 =~= n2);
}

/// Every neighbour of a cell of a rectangular grid lies inside the grid.
pub proof fn lemma_neighbours_inside(len: int, width: int, i: int, wrap: bool)
    requires
        is_rectangle(len, width),
        0 <= i < len,
    ensures
        forall|k: int| 0 <= k < neighbor_indices(len, width, i, wrap).len() ==>
            0 <= #[trigger] neighbor_indices(len, width, i, wrap)[k] < len,
{
    lemma_row_inside(len, width, i);
}

/// Two cells are orthogonally adjacent: side by side in one row, or one
/// above the other in one column.
pub open spec fn adjacent(width: int, i: int, j: int) -> bool {
    ||| (j / width == i / width && (j == i + 1 || j + 1 == i))
    ||| (j % width == i % width && (j == i + width || j + width == i))
}

/// Without wrapping, every neighbour of a cell of a rectangular grid lies
/// inside the grid and is orthogonally adjacent to it; none is diagonal or
/// on the far side of an edge.
pub proof fn lemma_bounded_neighbours_adjacent(len: int, width: int, i: int)
    requires
        is_rectangle(len, width),
        0 <= i < len,
    ensures
        forall|k: int| 0 <= k < neighbor_indices(len, width, i, false).len() ==> {
            let j = #[trigger] neighbor_indices(len, width, i, false)[k];
            &&& 0 <= j < len
            &&& adjacent(width, i, j)
        },
{
    lemma_row_inside(len, width, i);
    lemma_fundamental_div_mod(i, width);
    let q = i / width;
    let r = i % width;
    assert(i == q * width + r) by (nonlinear_arith)
        requires i == width * q + r;
    if r > 0 {
        lemma_fundamental_div_mod_converse(i - 1, width, q, r - 1);
    }
    if r < width - 1 {
        lemma_fundamental_div_mod_converse(i + 1, width, q, r + 1);
    }
    if i >= width {
        assert(i - width == (q - 1) * width + r) by (nonlinear_arith)
            requires i == q * width + r;
        lemma_fundamental_div_mod_converse(i - width, width, q - 1, r);
    }
    if i + width < len {
        assert(i + width == (q + 1) * width + r) by (nonlinear_arith)
            requires i == q * width + r;
        lemma_fundamental_div_mod_converse(i + width, width, q + 1, r);
    }
}

/// With wrapping, the neighbours of a cell are, in order, the cells one
/// column left and one column right in the same row, and one row up and one
/// row down in the same column, each taken round the edges of the grid.
pub proof fn lemma_wrapped_neighbours_modular(len: int, width: int, i: int)
    requires
        is_rectangle(len, width),
        0 <= i < len,
    ensures
        neighbor_indices(len, width, i, true) == seq![
            (i / width) * width + (i % width + width - 1) % width,
            (i / width) * width + (i % width + 1) % width,
            (i + len - width) % len,
            (i + width) % len,
        ],
{
    lemma_row_inside(len, width, i);
    lemma_fundamental_div_mod(i, width);
    lemma_fundamental_div_mod(len, width);
    let q = i / width;
    let r = i % width;
    let m = len / width;
    assert(i == q * width + r) by (nonlinear_arith)
        requires i == width * q + r;
    assert(len == m * width) by (nonlinear_arith)
        requires len == width * m + len % width, len % width == 0;
    if r == 0 {
        lemma_fundamental_div_mod_converse(r + width - 1, width, 0, width - 1);
    } else {
        lemma_fundamental_div_mod_converse(r + width - 1, width, 1, r - 1);
    }
    if r == width - 1 {
        lemma_fundamental_div_mod_converse(r + 1, width, 1, 0);
    } else {
        lemma_fundamental_div_mod_converse(r + 1, width, 0, r + 1);
    }
    if i >= width {
        lemma_fundamental_div_mod_converse(i + len - width, len, 1, i - width);
    } else {
        lemma_fundamental_div_mod_converse(i + len - width, len, 0, i + len - width);
    }
    if i >= len - width {
        assert(q == m - 1) by (nonlinear_arith)
            requires i == q * width + r, len == m * width, 0 <= r < width, len - width <= i, i < len, width > 0;
        assert(i + width - len == r) by (nonlinear_arith)
            requires i == q * width + r, len == m * width, q == m - 1;
        lemma_fundamental_div_mod_converse(i + width, len, 1, r);
    } else {
        lemma_fundamental_div_mod_converse(i + width, len, 0, i + width);
    }
    let nb = neighbor_indices(len, width, i, true);
    assert(nb =~= seq![
        q * width + (r + width - 1) % width,
        q * width + (r + 1) % width,
        (i + len - width) % len,
        (i + width) % len,
    ]);
}

/// The row of cell `i` lies wholly inside the grid.
proof fn lemma_row_inside(len: int, width: int, i: int)
    requires
        is_rectangle(len, width),
        0 <= i < len,
    ensures
        0 <= i % width < width,
        i % width <= i,
        i - i % width + width <= len,
{
    lemma_fundamental_div_mod(i, width);
    lemma_fundamental_div_mod(len, width);
    lemma_mod_pos_bound(i, width);
    lemma_mod_pos_bound(len, width);
    let q = i / width;
    let m = len / width;
    assert(q >= 0) by (nonlinear_arith)
        requires width * q + i % width == i, 0 <= i % width < width, i >= 0, width > 0;
    assert(q < m) by (nonlinear_arith)
        requires width * q + i % width == i, i % width >= 0, i < len, len == width * m, width > 0;
    assert(width * q + width <= width * m) by (nonlinear_arith)
        requires q < m, width > 0;
    assert(width * q <= i - i % width);
}

/// The neighbours of cell `i` as pairs of index and element, in the order
/// left, right, up, down.
pub fn find_neighbours<T>(arr: &[T], width: usize, i: usize, wrap: bool) -> (n: Vec<(usize, &T)>)
    requires
        is_rectangle(arr@.len() as int, width as int),
        i < arr@.len(),
    ensures
        lists_neighbours(arr@, width as int, i as int, wrap, n@),
        forall|k: int| 0 <= k < n@.len() ==> #[trigger] n@[k].0 < arr@.len(),
{
    proof {
        lemma_row_inside(arr@.len() as int, width as int, i as int);
    }
    let ghost nb = neighbor_indices(arr@.len() as int, width as int, i as int, wrap);
    let len = arr.len();
    let mut n: Vec<(usize, &T)> = Vec::with_capacity(4);
    let c = i % width;

    if wrap {
        let index = if i % width == 0 { i + width - 1 } else { i - 1 };
        n.push((index, &arr[index]));

        let index = if i % width == width - 1 { i + 1 - width } else { i + 1 };
        n.push((index, &arr[index]));

        let index = if i >= width { i - width } else { len - width + i };
        n.push((index, &arr[index]));

        let index = if i >= len - width { i % width } else { i + width };
        n.push((index, &arr[index]));
    } else {
        if c > 0 {
            let index = i - 1;
            n.push((index, &arr[index]));
        }

        if c < width - 1 {
            let index = i + 1;
            n.push((index, &arr[index]));
        }

        if i >= width {
            let index = i - width;
            n.push((index, &arr[index]));
        }

        if i < len - width {
            let index = i + width;
            n.push((index, &arr[index]));
        }
        assert(n@.len() == nb.len());
    }
    n
}

} // verus!
