//! Tile grids and the greedy merge of their occupied cells into rectangles.

use vstd::prelude::*;

verus! {

/// The occupied cells of one level region, with the region's size in cells
/// and the side of one cell in world units.
pub struct TileGrid {
    width: usize,
    height: usize,
    cell_size: u32,
    rows: Vec<Vec<bool>>,
}

/// A maximal horizontal run of occupied cells in one row, `left..=right`.
#[derive(Clone, Copy, Debug, PartialEq, Eq, Structural)]
pub struct Plate {
    pub left: usize,
    pub right: usize,
}

/// An axis-aligned block of cells: columns `left..=right`, rows `bottom..=top`.
#[derive(Clone, Copy, Debug, PartialEq, Eq, Structural)]
pub struct Rect {
    pub left: usize,
    pub right: usize,
    pub top: usize,
    pub bottom: usize,
}

impl TileGrid {
    #[verifier::type_invariant]
    spec fn inv(&self) -> bool {
        &&& self.rows@.len() == self.height
        &&& forall|y: int| 0 <= y < self.height ==> (#[trigger] self.rows@[y])@.len() == self.width
    }

    pub closed spec fn spec_width(&self) -> nat {
        self.width as nat
    }

    pub closed spec fn spec_height(&self) -> nat {
        self.height as nat
    }

    pub closed spec fn spec_cell_size(&self) -> nat {
        self.cell_size as nat
    }

    /// Whether cell `(x, y)` is occupied; cells outside the grid never are.
    pub closed spec fn occupied(&self, x: int, y: int) -> bool {
        &&& 0 <= x < self.width
        &&& 0 <= y < self.height
        &&& self.rows@[y]@[x]
    }

    /// `left..=right` is a maximal run of occupied cells in row `y`.
    pub open spec fn is_plate(&self, y: int, left: int, right: int) -> bool {
        &&& 0 <= left <= right
        &&& forall|x: int| left <= x <= right ==> #[trigger] self.occupied(x, y)
        &&& !self.occupied(left - 1, y)
        &&& !self.occupied(right + 1, y)
    }

    /// `ps` lists the maximal runs of row `y`, left to right.
    pub open spec fn is_row_plates(&self, y: int, ps: Seq<Plate>) -> bool {
        &&& forall|i: int| 0 <= i < ps.len() ==> self.is_plate(y, #[trigger] ps[i].left as int, ps[i].right as int)
        &&& forall|i: int, j: int| 0 <= i < j < ps.len() ==> #[trigger] ps[i].right < #[trigger] ps[j].left
        &&& forall|l: int, r: int| #[trigger] self.is_plate(y, l, r) ==> has_plate(ps, l, r)
        &&& forall|x: int| #[trigger] self.occupied(x, y) ==> in_plates(ps, x)
    }

    /// `r` stacks one plate over the rows `bottom..=top`, and that plate is
    /// not a plate of the row just below.
    pub open spec fn is_plate_stack(&self, r: Rect) -> bool {
        &&& r.bottom <= r.top
        &&& forall|y: int| r.bottom <= y <= r.top ==> #[trigger] self.is_plate(y, r.left as int, r.right as int)
        &&& !self.is_plate(r.bottom - 1, r.left as int, r.right as int)
    }

    /// `r` is a maximal vertical stack of one plate: it is not a plate of the
    /// row just above either.
    pub open spec fn is_wall_rect(&self, r: Rect) -> bool {
        &&& self.is_plate_stack(r)
        &&& !self.is_plate(r.top + 1, r.left as int, r.right as int)
    }

    /// `rs` covers the occupied cells exactly with maximal plate stacks that
    /// never overlap.
    pub open spec fn is_wall_cover(&self, rs: Seq<Rect>) -> bool {
        &&& forall|i: int| 0 <= i < rs.len() ==> self.is_wall_rect(#[trigger] rs[i])
        &&& pairwise_disjoint(rs)
        &&& forall|x: int, y: int| #[trigger] self.occupied(x, y) ==> covered(rs, x, y)
    }

    /// `open` holds the stacks that reach row `y - 1`, one for each plate of
    /// that row and in its order.
    pub open spec fn open_stacks(&self, y: int, open: Seq<Rect>) -> bool {
        &&& forall|m: int| 0 <= m < open.len() ==> #[trigger] open[m].top + 1 == y && self.is_plate_stack(open[m])
        &&& forall|m1: int, m2: int| 0 <= m1 < m2 < open.len() ==> #[trigger] open[m1].right < #[trigger] open[m2].left
        &&& forall|l: int, r: int| #[trigger] self.is_plate(y - 1, l, r) ==> has_rect_plate(open, l, r)
    }

    /// The state of the column pass before row `y`: the stacks `open` are
    /// still growing, and `done` holds the stacks already closed.
    pub open spec fn merge_state(&self, y: int, open: Seq<Rect>, done: Seq<Rect>) -> bool {
        &&& self.open_stacks(y, open)
        &&& forall|k: int| 0 <= k < done.len() ==> self.is_wall_rect(#[trigger] done[k]) && done[k].top + 1 < y
        &&& pairwise_disjoint(done)
        &&& in_merge_order(done)
        &&& forall|k: int, m: int| 0 <= k < done.len() && 0 <= m < open.len() ==> (#[trigger] done[k]).disjoint(#[trigger] open[m])
        &&& forall|x: int, yy: int| yy < y && #[trigger] self.occupied(x, yy) ==> covered(done, x, yy) || covered(open, x, yy)
    }

    /// Builds a grid of `width` by `height` cells in which exactly the listed
    /// cells that lie inside the grid are occupied.
    pub fn new(width: usize, height: usize, cell_size: u32, cells: &Vec<(i32, i32)>) -> (g: TileGrid)
        ensures
            g.spec_width() == width,
            g.spec_height() == height,
            g.spec_cell_size() == cell_size,
            forall|x: int, y: int| #[trigger] g.occupied(x, y) <==> {
                &&& 0 <= x < width
                &&& 0 <= y < height
                &&& lists_cell(cells@, cells.len() as int, x, y)
            },
    {
        let mut rows: Vec<Vec<bool>> = Vec::new();
        let mut y: usize = 0;
        while y < height
            invariant
                y <= height,
                rows@.len() == y,
                forall|yy: int| 0 <= yy < y ==> (#[trigger] rows@[yy])@.len() == width,
                forall|yy: int, x: int| 0 <= yy < y && 0 <= x < width ==> (#[trigger] rows@[yy]@[x] <==> lists_cell(cells@, cells.len() as int, x, yy)),
            decreases height - y,
        {
            let mut row: Vec<bool> = Vec::new();
            let mut x: usize = 0;
            while x < width
                invariant
                    x <= width,
                    row@.len() == x,
                    forall|xx: int| 0 <= xx < x ==> !(#[trigger] row@[xx]),
                decreases width - x,
            {
                row.push(false);
                x = x + 1;
            }
            let mut i: usize = 0;
            while i < cells.len()
                invariant
                    y < height,
                    i <= cells.len(),
                    row@.len() == width,
                    forall|xx: int| 0 <= xx < width ==> (#[trigger] row@[xx] <==> lists_cell(cells@, i as int, xx, y as int)),
                decreases cells.len() - i,
            {
                let (cx, cy) = cells[i];
                if 0 <= cy && cy as usize == y && 0 <= cx && (cx as usize) < width {
                    row.set(cx as usize, true);
                    assert(row@[cx as int]);
                }
                assert forall|xx: int| 0 <= xx < width implies (#[trigger] row@[xx] <==> lists_cell(cells@, i + 1, xx, y as int)) by {
                    if cells@[i as int].0 == xx && cells@[i as int].1 == y {
                        assert(lists_cell(cells@, i + 1, xx, y as int));
                    }
                    if lists_cell(cells@, i + 1, xx, y as int) && !lists_cell(cells@, i as int, xx, y as int) {
                        let k = choose|k: int| 0 <= k < i + 1 && (#[trigger] cells@[k]).0 == xx && cells@[k].1 == y;
                        assert(k == i);
                    }
                }
                i = i + 1;
            }
            rows.push(row);
            y = y + 1;
        }
        TileGrid { width, height, cell_size, rows }
    }

    pub fn width(&self) -> (r: usize)
        ensures
            r == self.spec_width(),
    {
        self.width
    }

    pub fn height(&self) -> (r: usize)
        ensures
            r == self.spec_height(),
    {
        self.height
    }

    pub fn cell_size(&self) -> (r: u32)
        ensures
            r == self.spec_cell_size(),
    {
        self.cell_size
    }

    /// Whether cell `(x, y)` is occupied.
    pub fn is_occupied(&self, x: usize, y: usize) -> (r: bool)
        ensures
            r == self.occupied(x as int, y as int),
    {
        proof {
            use_type_invariant(self);
        }
        if x < self.width && y < self.height {
            self.rows[y][x]
        } else {
            false
        }
    }

    /// The maximal runs of occupied cells in row `y`, left to right. The
    /// column past the right edge counts as free, so a run that reaches the
    /// edge ends at `width - 1`.
    pub fn row_plates(&self, y: usize) -> (ps: Vec<Plate>)
        requires
            y < self.spec_height(),
        ensures
            self.is_row_plates(y as int, ps@),
    {
        proof {
            use_type_invariant(self);
        }
        let mut ps: Vec<Plate> = Vec::new();
        let mut start: Option<usize> = None;
        let mut x: usize = 0;
        while x < self.width
            invariant
                x <= self.width,
                y < self.height,
                self.inv(),
                forall|i: int| 0 <= i < ps.len() ==> self.is_plate(y as int, #[trigger] ps@[i].left as int, ps@[i].right as int),
                forall|i: int| 0 <= i < ps.len() ==> #[trigger] ps@[i].right < x,
                forall|i: int, j: int| 0 <= i < j < ps.len() ==> #[trigger] ps@[i].right < #[trigger] ps@[j].left,
                match start {
                    Some(s) => {
                        &&& s < x
                        &&& forall|xx: int| s <= xx < x ==> #[trigger] self.occupied(xx, y as int)
                        &&& !self.occupied(s - 1, y as int)
                        &&& forall|i: int| 0 <= i < ps.len() ==> #[trigger] ps@[i].right < s
                    },
                    None => x == 0 || !self.occupied(x - 1, y as int),
                },
                forall|xx: int| 0 <= xx < x && #[trigger] self.occupied(xx, y as int) ==> in_plates(ps@, xx) || (start is Some && start->0 <= xx),
            decreases self.width - x,
        {
            let here = self.rows[y][x];
            match start {
                Some(s) => {
                    if !here {
                        let ghost old_ps = ps@;
                        ps.push(Plate { left: s, right: x - 1 });
                        start = None;
                        assert forall|xx: int| 0 <= xx < x + 1 && #[trigger] self.occupied(xx, y as int) implies in_plates(ps@, xx) by {
                            if s <= xx {
                                assert(ps@[ps.len() - 1].left <= xx <= ps@[ps.len() - 1].right);
                            } else {
                                let i = choose|i: int| 0 <= i < old_ps.len() && #[trigger] old_ps[i].left <= xx && xx <= old_ps[i].right;
                                assert(ps@[i] == old_ps[i]);
                            }
                        }
                    }
                },
                None => {
                    if here {
                        start = Some(x);
                    }
                },
            }
            x = x + 1;
        }
        if let Some(s) = start {
            let ghost old_ps = ps@;
            ps.push(Plate { left: s, right: self.width - 1 });
            assert forall|xx: int| 0 <= xx < self.width && #[trigger] self.occupied(xx, y as int) implies in_plates(ps@, xx) by {
                if s <= xx {
                    assert(ps@[ps.len() - 1].left <= xx <= ps@[ps.len() - 1].right);
                } else {
                    let i = choose|i: int| 0 <= i < old_ps.len() && #[trigger] old_ps[i].left <= xx && xx <= old_ps[i].right;
                    assert(ps@[i] == old_ps[i]);
                }
            }
        }
        assert forall|l: int, r: int| #[trigger] self.is_plate(y as int, l, r) implies has_plate(ps@, l, r) by {
            assert(self.occupied(l, y as int));
            let i = choose|i: int| 0 <= i < ps.len() && #[trigger] ps@[i].left <= l && l <= ps@[i].right;
            lemma_plates_sharing_cell(*self, y as int, l, r, ps@[i].left as int, ps@[i].right as int, l);
        }
        ps
    }

    /// Merges the occupied cells into rectangles: the plates of each row are
    /// found, then identical plates of consecutive rows are stacked into one
    /// rectangle, which ends at the first row where its plate does not go on.
    /// Rectangles come out in the order in which they end, left to right
    /// within a row.
    pub fn wall_rects(&self) -> (rs: Vec<Rect>)
        ensures
            self.is_wall_cover(rs@),
            in_merge_order(rs@),
            forall|x: int, y: int| covered(rs@, x, y) <==> #[trigger] self.occupied(x, y),
    {
        let mut open: Vec<Rect> = Vec::new();
        let mut done: Vec<Rect> = Vec::new();
        let mut y: usize = 0;
        assert forall|l: int, r: int| !#[trigger] self.is_plate(-1, l, r) by {
            if self.is_plate(-1, l, r) {
                assert(self.occupied(l, -1));
            }
        }
        while y < self.height
            invariant
                y <= self.spec_height(),
                self.merge_state(y as int, open@, done@),
            decreases self.spec_height() - y,
        {
            let cur = self.row_plates(y);
            let ghost done0 = done@;
            self.close_stacks(y, &open, &cur, &mut done);
            let next = self.extend_stacks(y, &open, &cur);
            proof {
                self.lemma_step(y as int, open@, done0, cur@, done@, next@);
            }
            open = next;
            y = y + 1;
        }
        let ghost done0 = done@;
        let ghost open0 = open@;
        done.append(&mut open);
        proof {
            self.lemma_finish(done0, open0, done@);
            lemma_cover_is_exact(*self, done@);
        }
        done
    }

    /// One row of the column pass carries its state over to the next row.
    proof fn lemma_step(&self, y: int, open: Seq<Rect>, done: Seq<Rect>, cur: Seq<Plate>, done2: Seq<Rect>, next: Seq<Rect>)
        requires
            0 <= y < self.spec_height(),
            self.merge_state(y, open, done),
            self.is_row_plates(y, cur),
            done2.len() >= done.len(),
            forall|k: int| 0 <= k < done.len() ==> #[trigger] done2[k] == done[k],
            forall|k: int| 0 <= k < done2.len() ==> self.is_wall_rect(#[trigger] done2[k]) && done2[k].top + 1 <= y,
            pairwise_disjoint(done2),
            in_merge_order(done2),
            forall|k: int, m: int| 0 <= k < done2.len() && 0 <= m < open.len() && has_plate(cur, open[m].left as int, open[m].right as int) ==> (#[trigger] done2[k]).disjoint(#[trigger] open[m]),
            forall|m: int| 0 <= m < open.len() ==> has_plate(cur, (#[trigger] open[m]).left as int, open[m].right as int) || done2.contains(open[m]),
            next.len() == cur.len(),
            forall|t: int| 0 <= t < next.len() ==> {
                &&& (#[trigger] next[t]).left == cur[t].left
                &&& next[t].right == cur[t].right
                &&& next[t].top == y
                &&& self.is_plate_stack(next[t])
            },
            forall|t: int, m: int| 0 <= t < next.len() && 0 <= m < open.len() && (#[trigger] open[m]).left == cur[t].left && open[m].right == cur[t].right ==> (#[trigger] next[t]).bottom == open[m].bottom,
            forall|t: int| 0 <= t < next.len() && !has_rect_plate(open, cur[t].left as int, cur[t].right as int) ==> (#[trigger] next[t]).bottom == y,
        ensures
            self.merge_state(y + 1, next, done2),
    {
        assert forall|t1: int, t2: int| 0 <= t1 < t2 < next.len() implies #[trigger] next[t1].right < #[trigger] next[t2].left by {
            assert(cur[t1].right < cur[t2].left);
        }
        assert forall|l: int, r: int| #[trigger] self.is_plate(y, l, r) implies has_rect_plate(next, l, r) by {
            let t = choose|t: int| 0 <= t < cur.len() && #[trigger] cur[t].left == l && cur[t].right == r;
            assert(next[t].left == l);
        }
        assert forall|k: int, t: int| 0 <= k < done2.len() && 0 <= t < next.len() implies (#[trigger] done2[k]).disjoint(#[trigger] next[t]) by {
            if has_rect_plate(open, cur[t].left as int, cur[t].right as int) {
                let m = choose|m: int| 0 <= m < open.len() && #[trigger] open[m].left == cur[t].left && open[m].right == cur[t].right;
                assert(has_plate(cur, open[m].left as int, open[m].right as int)) by {
                    assert(cur[t].left == open[m].left);
                }
                assert(done2[k].disjoint(open[m]));
                assert(next[t].bottom == open[m].bottom);
            }
        }
        assert forall|x: int, yy: int| yy < y + 1 && #[trigger] self.occupied(x, yy) implies covered(done2, x, yy) || covered(next, x, yy) by {
            if yy == y {
                let t = choose|t: int| 0 <= t < cur.len() && #[trigger] cur[t].left <= x && x <= cur[t].right;
                assert(next[t].has_cell(x, yy));
            } else if covered(done, x, yy) {
                let k = choose|k: int| 0 <= k < done.len() && #[trigger] done[k].has_cell(x, yy);
                assert(done2[k].has_cell(x, yy));
            } else {
                let m = choose|m: int| 0 <= m < open.len() && #[trigger] open[m].has_cell(x, yy);
                if has_plate(cur, open[m].left as int, open[m].right as int) {
                    let t = choose|t: int| 0 <= t < cur.len() && #[trigger] cur[t].left == open[m].left && cur[t].right == open[m].right;
                    assert(next[t].bottom == open[m].bottom);
                    assert(next[t].has_cell(x, yy));
                } else {
                    assert(done2.contains(open[m]));
                    let k = choose|k: int| 0 <= k < done2.len() && done2[k] == open[m];
                    assert(done2[k].has_cell(x, yy));
                }
            }
        }
    }

    /// Once every row is merged, the closed and the open stacks together are
    /// the cover.
    proof fn lemma_finish(&self, done: Seq<Rect>, open: Seq<Rect>, all: Seq<Rect>)
        requires
            self.merge_state(self.spec_height() as int, open, done),
            all == done + open,
        ensures
            self.is_wall_cover(all),
            in_merge_order(all),
    {
        let h = self.spec_height() as int;
        assert forall|i: int| 0 <= i < all.len() implies self.is_wall_rect(#[trigger] all[i]) by {
            if i >= done.len() {
                let r = open[i - done.len()];
                assert(r.top + 1 == h);
                if self.is_plate(h, r.left as int, r.right as int) {
                    assert(self.occupied(r.left as int, h));
                }
            }
        }
        assert forall|i: int, j: int| 0 <= i < all.len() && 0 <= j < all.len() && i != j implies (#[trigger] all[i]).disjoint(#[trigger] all[j]) by {
            let n = done.len() as int;
            if i < n && j < n {
                assert(done[i].disjoint(done[j]));
            } else if i < n {
                assert(done[i].disjoint(open[j - n]));
            } else if j < n {
                assert(done[j].disjoint(open[i - n]));
            } else if i < j {
                assert(open[i - n].right < open[j - n].left);
            } else {
                assert(open[j - n].right < open[i - n].left);
            }
        }
        assert forall|i: int, j: int| 0 <= i < j < all.len() implies rect_before(#[trigger] all[i], #[trigger] all[j]) by {
            let n = done.len() as int;
            if i >= n {
                let a = open[i - n];
                assert(all[i] == a && all[j] == open[j - n]);
                assert(a.right < open[j - n].left);
                assert(self.is_plate_stack(a));
                assert(self.is_plate(a.bottom as int, a.left as int, a.right as int));
                assert(a.top + 1 == h && open[j - n].top + 1 == h);
            } else if j >= n {
                assert(all[i] == done[i] && all[j] == open[j - n]);
                assert(done[i].top + 1 < h);
                assert(open[j - n].top + 1 == h);
            } else {
                assert(all[i] == done[i] && all[j] == done[j]);
                assert(rect_before(done[i], done[j]));
            }
        }
        assert forall|x: int, y: int| #[trigger] self.occupied(x, y) implies covered(all, x, y) by {
            if covered(done, x, y) {
                let k = choose|k: int| 0 <= k < done.len() && #[trigger] done[k].has_cell(x, y);
                assert(all[k].has_cell(x, y));
            } else {
                let m = choose|m: int| 0 <= m < open.len() && #[trigger] open[m].has_cell(x, y);
                assert(all[done.len() + m].has_cell(x, y));
            }
        }
    }

    /// Moves to `done` each open stack whose plate does not go on in row `y`.
    fn close_stacks(&self, y: usize, open: &Vec<Rect>, cur: &Vec<Plate>, done: &mut Vec<Rect>)
        requires
            y < self.spec_height(),
            self.merge_state(y as int, open@, old(done)@),
            self.is_row_plates(y as int, cur@),
        ensures
            final(done)@.len() >= old(done)@.len(),
            forall|k: int| 0 <= k < old(done)@.len() ==> #[trigger] final(done)@[k] == old(done)@[k],
            forall|k: int| 0 <= k < final(done)@.len() ==> self.is_wall_rect(#[trigger] final(done)@[k]) && final(done)@[k].top + 1 <= y,
            pairwise_disjoint(final(done)@),
            in_merge_order(final(done)@),
            forall|k: int, m: int| 0 <= k < final(done)@.len() && 0 <= m < open@.len() && has_plate(cur@, open@[m].left as int, open@[m].right as int) ==> (#[trigger] final(done)@[k]).disjoint(#[trigger] open@[m]),
            forall|m: int| 0 <= m < open@.len() ==> has_plate(cur@, (#[trigger] open@[m]).left as int, open@[m].right as int) || final(done)@.contains(open@[m]),
    {
        let ghost done0 = done@;
        let mut i: usize = 0;
        while i < open.len()
            invariant
                i <= open@.len(),
                y < self.spec_height(),
                self.merge_state(y as int, open@, done0),
                self.is_row_plates(y as int, cur@),
                done@.len() >= done0.len(),
                forall|k: int| 0 <= k < done0.len() ==> #[trigger] done@[k] == done0[k],
                forall|k: int| 0 <= k < done@.len() ==> self.is_wall_rect(#[trigger] done@[k]) && done@[k].top + 1 <= y,
                pairwise_disjoint(done@),
                in_merge_order(done@),
                forall|k: int| done0.len() <= k < done@.len() ==> (#[trigger] done@[k]).top + 1 == y,
                forall|k: int, m: int| done0.len() <= k < done@.len() && i <= m < open@.len() ==> (#[trigger] done@[k]).right < (#[trigger] open@[m]).left,
                forall|k: int, m: int| 0 <= k < done@.len() && 0 <= m < open@.len() && has_plate(cur@, open@[m].left as int, open@[m].right as int) ==> (#[trigger] done@[k]).disjoint(#[trigger] open@[m]),
                forall|m: int| 0 <= m < i ==> has_plate(cur@, (#[trigger] open@[m]).left as int, open@[m].right as int) || done@.contains(open@[m]),
            decreases open@.len() - i,
        {
            let r = open[i];
            if !find_plate(cur, r.left, r.right) {
                let ghost before = done@;
                done.push(r);
                assert(done@[done@.len() - 1] == r);
                assert(self.is_wall_rect(r)) by {
                    if self.is_plate(y as int, r.left as int, r.right as int) {
                        assert(has_plate(cur@, r.left as int, r.right as int));
                    }
                }
                assert forall|a: int, b: int| 0 <= a < done@.len() && 0 <= b < done@.len() && a != b implies (#[trigger] done@[a]).disjoint(#[trigger] done@[b]) by {
                    if a < before.len() && b < before.len() {
                        assert(before[a].disjoint(before[b]));
                    } else if a == before.len() && b < done0.len() {
                        assert(done0[b].disjoint(open@[i as int]));
                    } else if b == before.len() && a < done0.len() {
                        assert(done0[a].disjoint(open@[i as int]));
                    } else if a == before.len() {
                        assert(before[b].right < open@[i as int].left);
                    } else {
                        assert(before[a].right < open@[i as int].left);
                    }
                }
                assert forall|a: int, b: int| 0 <= a < b < done@.len() implies rect_before(#[trigger] done@[a], #[trigger] done@[b]) by {
                    if b < before.len() {
                        assert(rect_before(before[a], before[b]));
                    } else if a < done0.len() {
                        assert(done@[a] == done0[a]);
                        assert(done0[a].top + 1 < y);
                        assert(open@[i as int].top + 1 == y);
                    } else {
                        assert(before[a].top + 1 == y);
                        assert(before[a].right < open@[i as int].left);
                        assert(self.is_wall_rect(before[a]));
                        assert(self.is_plate(before[a].bottom as int, before[a].left as int, before[a].right as int));
                        assert(open@[i as int].top + 1 == y);
                    }
                }
                assert forall|k: int, m: int| 0 <= k < done@.len() && 0 <= m < open@.len() && has_plate(cur@, open@[m].left as int, open@[m].right as int) implies (#[trigger] done@[k]).disjoint(#[trigger] open@[m]) by {
                    if k < before.len() {
                        assert(before[k].disjoint(open@[m]));
                    } else {
                        assert(m != i);
                    }
                }
                assert forall|m: int| 0 <= m < i + 1 implies has_plate(cur@, (#[trigger] open@[m]).left as int, open@[m].right as int) || done@.contains(open@[m]) by {
                    if m < i && !has_plate(cur@, open@[m].left as int, open@[m].right as int) {
                        let k = choose|k: int| 0 <= k < before.len() && before[k] == open@[m];
                        assert(done@[k] == open@[m]);
                    }
                }
            }
            i = i + 1;
        }
    }

    /// Grows each plate of row `y` into a stack: the open stack of the same
    /// plate with its top raised to `y`, or a new stack of one row.
    fn extend_stacks(&self, y: usize, open: &Vec<Rect>, cur: &Vec<Plate>) -> (next: Vec<Rect>)
        requires
            y < self.spec_height(),
            self.open_stacks(y as int, open@),
            self.is_row_plates(y as int, cur@),
        ensures
            next@.len() == cur@.len(),
            forall|t: int| 0 <= t < next@.len() ==> {
                &&& (#[trigger] next@[t]).left == cur@[t].left
                &&& next@[t].right == cur@[t].right
                &&& next@[t].top == y
                &&& self.is_plate_stack(next@[t])
            },
            forall|t: int, m: int| 0 <= t < next@.len() && 0 <= m < open@.len() && (#[trigger] open@[m]).left == cur@[t].left && open@[m].right == cur@[t].right ==> (#[trigger] next@[t]).bottom == open@[m].bottom,
            forall|t: int| 0 <= t < next@.len() && !has_rect_plate(open@, cur@[t].left as int, cur@[t].right as int) ==> (#[trigger] next@[t]).bottom == y,
    {
        let mut next: Vec<Rect> = Vec::new();
        let mut t: usize = 0;
        while t < cur.len()
            invariant
                t <= cur@.len(),
                next@.len() == t,
                y < self.spec_height(),
                self.open_stacks(y as int, open@),
                self.is_row_plates(y as int, cur@),
                forall|u: int| 0 <= u < t ==> {
                    &&& (#[trigger] next@[u]).left == cur@[u].left
                    &&& next@[u].right == cur@[u].right
                    &&& next@[u].top == y
                    &&& self.is_plate_stack(next@[u])
                },
                forall|u: int, m: int| 0 <= u < t && 0 <= m < open@.len() && (#[trigger] open@[m]).left == cur@[u].left && open@[m].right == cur@[u].right ==> (#[trigger] next@[u]).bottom == open@[m].bottom,
                forall|u: int| 0 <= u < t && !has_rect_plate(open@, cur@[u].left as int, cur@[u].right as int) ==> (#[trigger] next@[u]).bottom == y,
            decreases cur@.len() - t,
        {
            let q = cur[t];
            assert(self.is_plate(y as int, q.left as int, q.right as int));
            let r = match find_rect(open, q.left, q.right) {
                Some(k) => {
                    let o = open[k];
                    assert forall|m: int| 0 <= m < open@.len() && (#[trigger] open@[m]).left == q.left && open@[m].right == q.right implies m == k by {
                        if m < k {
                            assert(open@[m].right < open@[k as int].left);
                        } else if k < m {
                            assert(open@[k as int].right < open@[m].left);
                        }
                    }
                    assert(o.top + 1 == y);
                    Rect { left: o.left, right: o.right, top: y, bottom: o.bottom }
                },
                None => {
                    assert(!self.is_plate(y - 1, q.left as int, q.right as int));
                    Rect { left: q.left, right: q.right, top: y, bottom: y }
                },
            };
            assert(self.is_plate_stack(r)) by {
                assert forall|yy: int| r.bottom <= yy <= r.top implies #[trigger] self.is_plate(yy, r.left as int, r.right as int) by {
                    if yy < y {
                        let k = choose|k: int| 0 <= k < open@.len() && #[trigger] open@[k].left == q.left && open@[k].right == q.right;
                        assert(self.is_plate_stack(open@[k]));
                    }
                }
            }
            next.push(r);
            t = t + 1;
        }
        next
    }
}

/// Whether some plate of `ps` is exactly `left..=right`.
fn find_plate(ps: &Vec<Plate>, left: usize, right: usize) -> (r: bool)
    ensures
        r == has_plate(ps@, left as int, right as int),
{
    let mut i: usize = 0;
    while i < ps.len()
        invariant
            i <= ps@.len(),
            forall|j: int| 0 <= j < i ==> !(#[trigger] ps@[j].left == left && ps@[j].right == right),
        decreases ps@.len() - i,
    {
        if ps[i].left == left && ps[i].right == right {
            return true;
        }
        i = i + 1;
    }
    false
}

/// The index of a rectangle of `rs` that spans exactly the columns
/// `left..=right`, if there is one.
fn find_rect(rs: &Vec<Rect>, left: usize, right: usize) -> (r: Option<usize>)
    ensures
        match r {
            Some(k) => k < rs@.len() && rs@[k as int].left == left && rs@[k as int].right == right,
            None => !has_rect_plate(rs@, left as int, right as int),
        },
{
    let mut i: usize = 0;
    while i < rs.len()
        invariant
            i <= rs@.len(),
            forall|j: int| 0 <= j < i ==> !(#[trigger] rs@[j].left == left && rs@[j].right == right),
        decreases rs@.len() - i,
    {
        if rs[i].left == left && rs[i].right == right {
            return Some(i);
        }
        i = i + 1;
    }
    None
}

/// The static collider of one rectangle, in world coordinates. Every length
/// counts half world units, so that a centre between two cells is exact.
#[derive(Clone, Copy, Debug, PartialEq, Eq, Structural)]
pub struct WallCollider {
    pub half_width: u128,
    pub half_height: u128,
    pub center_x: u128,
    pub center_y: u128,
}

/// The collider of `rect` in a grid whose cells measure `cell_size` world
/// units: a box of `(right - left + 1) * cell_size` by
/// `(top - bottom + 1) * cell_size` world units centred on the middle of
/// the rectangle.
pub fn wall_collider(rect: Rect, cell_size: u32) -> (c: WallCollider)
    requires
        rect.left <= rect.right,
        rect.bottom <= rect.top,
    ensures
        c.half_width == (rect.right - rect.left + 1) * cell_size,
        c.half_height == (rect.top - rect.bottom + 1) * cell_size,
        c.center_x == (rect.left + rect.right + 1) * cell_size,
        c.center_y == (rect.bottom + rect.top + 1) * cell_size,
{
    let s = cell_size as u128;
    let w = (rect.right - rect.left) as u128 + 1;
    let h = (rect.top - rect.bottom) as u128 + 1;
    let cx = rect.left as u128 + rect.right as u128 + 1;
    let cy = rect.bottom as u128 + rect.top as u128 + 1;
    assert(w * s <= 0x3_0000_0000_0000_0000_0000_0000) by (nonlinear_arith)
        requires w <= 0x1_0000_0000_0000_0000, s < 0x1_0000_0000;
    assert(h * s <= 0x3_0000_0000_0000_0000_0000_0000) by (nonlinear_arith)
        requires h <= 0x1_0000_0000_0000_0000, s < 0x1_0000_0000;
    assert(cx * s <= 0x3_0000_0000_0000_0000_0000_0000) by (nonlinear_arith)
        requires cx <= 0x2_0000_0000_0000_0000, s < 0x1_0000_0000;
    assert(cy * s <= 0x3_0000_0000_0000_0000_0000_0000) by (nonlinear_arith)
        requires cy <= 0x2_0000_0000_0000_0000, s < 0x1_0000_0000;
    WallCollider { half_width: w * s, half_height: h * s, center_x: cx * s, center_y: cy * s }
}

/// The rectangles of a cover hold exactly the occupied cells, and no cell
/// lies in two of them.
pub proof fn lemma_cover_is_exact(g: TileGrid, rs: Seq<Rect>)
    requires
        g.is_wall_cover(rs),
    ensures
        forall|x: int, y: int| covered(rs, x, y) <==> #[trigger] g.occupied(x, y),
        forall|x: int, y: int, i: int, j: int|
            0 <= i < rs.len() && 0 <= j < rs.len() && #[trigger] rs[i].has_cell(x, y) && #[trigger] rs[j].has_cell(x, y) ==> i == j,
{
    assert forall|x: int, y: int| covered(rs, x, y) implies #[trigger] g.occupied(x, y) by {
        let i = choose|i: int| 0 <= i < rs.len() && #[trigger] rs[i].has_cell(x, y);
        assert(g.is_wall_rect(rs[i]));
        assert(g.is_plate(y, rs[i].left as int, rs[i].right as int));
    }
    assert forall|x: int, y: int, i: int, j: int|
        0 <= i < rs.len() && 0 <= j < rs.len() && #[trigger] rs[i].has_cell(x, y) && #[trigger] rs[j].has_cell(x, y) implies i == j by {
        if i != j {
            assert(rs[i].disjoint(rs[j]));
        }
    }
}

/// The cover of a grid in merge order is unique: two sequences that both
/// cover the grid with maximal plate stacks, in merge order, are equal. So
/// merging one grid twice gives the same rectangles in the same order.
pub proof fn lemma_merge_is_deterministic(g: TileGrid, rs1: Seq<Rect>, rs2: Seq<Rect>)
    requires
        g.is_wall_cover(rs1),
        in_merge_order(rs1),
        g.is_wall_cover(rs2),
        in_merge_order(rs2),
    ensures
        rs1 == rs2,
{
    assert forall|r: Rect| rs1.contains(r) <==> rs2.contains(r) by {
        if rs1.contains(r) {
            let i = choose|i: int| 0 <= i < rs1.len() && rs1[i] == r;
            assert(g.is_wall_rect(rs1[i]));
            lemma_wall_rect_in_cover(g, rs2, r);
        }
        if rs2.contains(r) {
            let i = choose|i: int| 0 <= i < rs2.len() && rs2[i] == r;
            assert(g.is_wall_rect(rs2[i]));
            lemma_wall_rect_in_cover(g, rs1, r);
        }
    }
    lemma_same_ordered_seqs(rs1, rs2);
}

/// Every maximal plate stack of the grid is in its cover.
proof fn lemma_wall_rect_in_cover(g: TileGrid, rs: Seq<Rect>, r: Rect)
    requires
        g.is_wall_cover(rs),
        g.is_wall_rect(r),
    ensures
        rs.contains(r),
{
    let b = r.bottom as int;
    let l = r.left as int;
    assert(g.is_plate(b, l, r.right as int));
    assert(g.occupied(l, b));
    let i = choose|i: int| 0 <= i < rs.len() && #[trigger] rs[i].has_cell(l, b);
    let q = rs[i];
    assert(g.is_wall_rect(q));
    assert(g.is_plate(b, q.left as int, q.right as int));
    lemma_plates_sharing_cell(g, b, l, r.right as int, q.left as int, q.right as int, l);
    if q.bottom < b {
        assert(g.is_plate(b - 1, q.left as int, q.right as int));
    }
    if q.top < r.top {
        assert(g.is_plate(q.top + 1, r.left as int, r.right as int));
    }
    if r.top < q.top {
        assert(g.is_plate(r.top + 1, q.left as int, q.right as int));
    }
    assert(rs[i] == r);
}

/// Two sequences in merge order that hold the same rectangles are equal.
proof fn lemma_same_ordered_seqs(s1: Seq<Rect>, s2: Seq<Rect>)
    requires
        in_merge_order(s1),
        in_merge_order(s2),
        forall|r: Rect| s1.contains(r) <==> s2.contains(r),
    ensures
        s1 == s2,
    decreases s1.len(),
{
    if s1.len() == 0 {
        if s2.len() > 0 {
            assert(s2.contains(s2[0]));
        }
        assert(s1 =~= s2);
    } else {
        assert(s1.contains(s1[0]));
        let j = choose|j: int| 0 <= j < s2.len() && s2[j] == s1[0];
        assert(s2.contains(s2[0]));
        let k = choose|k: int| 0 <= k < s1.len() && s1[k] == s2[0];
        if j > 0 {
            assert(rect_before(s2[0], s2[j]));
            if k > 0 {
                assert(rect_before(s1[0], s1[k]));
            }
        }
        assert(s1[0] == s2[0]);
        let t1 = s1.drop_first();
        let t2 = s2.drop_first();
        assert forall|i: int, j: int| 0 <= i < j < t1.len() implies rect_before(#[trigger] t1[i], #[trigger] t1[j]) by {
            assert(rect_before(s1[i + 1], s1[j + 1]));
        }
        assert forall|i: int, j: int| 0 <= i < j < t2.len() implies rect_before(#[trigger] t2[i], #[trigger] t2[j]) by {
            assert(rect_before(s2[i + 1], s2[j + 1]));
        }
        assert forall|r: Rect| t1.contains(r) <==> t2.contains(r) by {
            if t1.contains(r) {
                let a = choose|a: int| 0 <= a < t1.len() && t1[a] == r;
                assert(rect_before(s1[0], s1[a + 1]));
                assert(s1.contains(r));
                let m = choose|m: int| 0 <= m < s2.len() && s2[m] == r;
                assert(m != 0);
                assert(t2[m - 1] == r);
            }
            if t2.contains(r) {
                let a = choose|a: int| 0 <= a < t2.len() && t2[a] == r;
                assert(rect_before(s2[0], s2[a + 1]));
                assert(s2.contains(r));
                let m = choose|m: int| 0 <= m < s1.len() && s1[m] == r;
                assert(m != 0);
                assert(t1[m - 1] == r);
            }
        }
        lemma_same_ordered_seqs(t1, t2);
        assert(s1 =~= s2) by {
            assert forall|i: int| 0 <= i < s1.len() implies s1[i] == s2[i] by {
                if i > 0 {
                    assert(t1[i - 1] == t2[i - 1]);
                }
            }
        }
    }
}

/// A region whose occupied cells form one solid block is covered by exactly
/// one rectangle, the block itself.
pub proof fn lemma_solid_block_is_one_rect(g: TileGrid, rs: Seq<Rect>, block: Rect)
    requires
        g.is_wall_cover(rs),
        block.left <= block.right,
        block.bottom <= block.top,
        forall|x: int, y: int| #[trigger] g.occupied(x, y) <==> block.has_cell(x, y),
    ensures
        rs.len() == 1,
        rs[0] == block,
{
    assert forall|y: int| block.bottom <= y <= block.top implies #[trigger] g.is_plate(y, block.left as int, block.right as int) by {
        assert(!block.has_cell(block.left - 1, y));
        assert(!block.has_cell(block.right + 1, y));
    }
    assert forall|i: int| 0 <= i < rs.len() implies #[trigger] rs[i] == block by {
        let r = rs[i];
        assert(g.is_wall_rect(r));
        assert(g.is_plate(r.bottom as int, r.left as int, r.right as int));
        assert(g.occupied(r.left as int, r.bottom as int));
        assert(g.occupied(r.right as int, r.bottom as int));
        if r.left > block.left {
            assert(g.occupied(r.left - 1, r.bottom as int));
        }
        if r.right < block.right {
            assert(g.occupied(r.right + 1, r.bottom as int));
        }
        assert(g.is_plate(r.top as int, r.left as int, r.right as int));
        assert(g.occupied(r.left as int, r.top as int));
        if r.bottom > block.bottom {
            assert(g.is_plate(r.bottom - 1, block.left as int, block.right as int));
        }
        if r.top < block.top {
            assert(g.is_plate(r.top + 1, block.left as int, block.right as int));
        }
    }
    assert(g.occupied(block.left as int, block.bottom as int));
    assert(covered(rs, block.left as int, block.bottom as int));
    if rs.len() > 1 {
        assert(rs[0].disjoint(rs[1]));
    }
}

/// A row occupied from edge to edge is one plate, which ends at the last
/// column of the grid.
pub proof fn lemma_full_row_is_one_plate(g: TileGrid, y: int, ps: Seq<Plate>)
    requires
        g.is_row_plates(y, ps),
        g.spec_width() > 0,
        forall|x: int| 0 <= x < g.spec_width() ==> #[trigger] g.occupied(x, y),
    ensures
        ps == seq![Plate { left: 0, right: (g.spec_width() - 1) as usize }],
{
    let w = g.spec_width() as int;
    assert(!g.occupied(w, y));
    assert(g.is_plate(y, 0, w - 1));
    assert forall|i: int| 0 <= i < ps.len() implies #[trigger] ps[i] == (Plate { left: 0, right: (w - 1) as usize }) by {
        assert(g.is_plate(y, ps[i].left as int, ps[i].right as int));
        assert(g.occupied(ps[i].left as int, y));
        lemma_plates_sharing_cell(g, y, ps[i].left as int, ps[i].right as int, 0, w - 1, ps[i].left as int);
    }
    let i = choose|i: int| 0 <= i < ps.len() && #[trigger] ps[i].left == 0 && ps[i].right == w - 1;
    if ps.len() > 1 {
        assert(ps[0].right < ps[1].left);
    }
    assert(ps =~= seq![Plate { left: 0, right: (w - 1) as usize }]);
}

/// Two maximal runs of one row that share a cell are the same run.
proof fn lemma_plates_sharing_cell(g: TileGrid, y: int, l1: int, r1: int, l2: int, r2: int, x: int)
    requires
        g.is_plate(y, l1, r1),
        g.is_plate(y, l2, r2),
        l1 <= x <= r1,
        l2 <= x <= r2,
    ensures
        l1 == l2,
        r1 == r2,
{
    if l1 < l2 {
        assert(g.occupied(l2 - 1, y));
    }
    if l2 < l1 {
        assert(g.occupied(l1 - 1, y));
    }
    if r1 < r2 {
        assert(g.occupied(r1 + 1, y));
    }
    if r2 < r1 {
        assert(g.occupied(r2 + 1, y));
    }
}

impl Rect {
    /// Cell `(x, y)` lies in the rectangle.
    pub open spec fn has_cell(self, x: int, y: int) -> bool {
        self.left <= x <= self.right && self.bottom <= y <= self.top
    }

    /// The two rectangles share no cell.
    pub open spec fn disjoint(self, o: Rect) -> bool {
        ||| self.right < o.left
        ||| o.right < self.left
        ||| self.top < o.bottom
        ||| o.top < self.bottom
    }
}

/// `a` comes before `b` in the merge's output: it ends on a lower row, or
/// on the same row further left.
pub open spec fn rect_before(a: Rect, b: Rect) -> bool {
    a.top < b.top || (a.top == b.top && a.left < b.left)
}

/// The rectangles come by the row on which they end, then left to right.
pub open spec fn in_merge_order(rs: Seq<Rect>) -> bool {
    forall|i: int, j: int| 0 <= i < j < rs.len() ==> rect_before(#[trigger] rs[i], #[trigger] rs[j])
}

/// Some rectangle of `rs` holds cell `(x, y)`.
pub open spec fn covered(rs: Seq<Rect>, x: int, y: int) -> bool {
    exists|i: int| 0 <= i < rs.len() && #[trigger] rs[i].has_cell(x, y)
}

/// No two rectangles of `rs` share a cell.
pub open spec fn pairwise_disjoint(rs: Seq<Rect>) -> bool {
    forall|i: int, j: int| 0 <= i < rs.len() && 0 <= j < rs.len() && i != j ==> (#[trigger] rs[i]).disjoint(#[trigger] rs[j])
}

/// Some rectangle of `rs` spans exactly the columns `left..=right`.
pub open spec fn has_rect_plate(rs: Seq<Rect>, left: int, right: int) -> bool {
    exists|m: int| 0 <= m < rs.len() && #[trigger] rs[m].left == left && rs[m].right == right
}

/// Cell column `x` lies in one of the plates `ps`.
pub open spec fn in_plates(ps: Seq<Plate>, x: int) -> bool {
    exists|i: int| 0 <= i < ps.len() && #[trigger] ps[i].left <= x && x <= ps[i].right
}

/// One of the first `n` entries of `cells` is `(x, y)`.
pub open spec fn lists_cell(cells: Seq<(i32, i32)>, n: int, x: int, y: int) -> bool {
    exists|k: int| 0 <= k < n && (#[trigger] cells[k]).0 == x && cells[k].1 == y
}

/// Some plate of `ps` is exactly `left..=right`.
pub open spec fn has_plate(ps: Seq<Plate>, left: int, right: int) -> bool {
    exists|i: int| 0 <= i < ps.len() && #[trigger] ps[i].left == left && ps[i].right == right
}

} // verus!
