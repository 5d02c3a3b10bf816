use vstd::prelude::*;

verus! {

/// Size of the pixel grid: `x` columns by `y` rows.
#[derive(Debug, Clone, Copy, PartialEq, Eq)]
pub struct Extent {
    pub x: usize,
    pub y: usize,
}

/// The cell `(cx, cy)` lies in the grid. Cells are the floors of projected
/// coordinates, so this is the half-open test `0 <= px < width`,
/// `0 <= py < height` on the coordinates themselves: a point exactly on the
/// upper edge falls in cell `width` and is outside.
pub open spec fn fits(e: Extent, cx: int, cy: int) -> bool {
    0 <= cx < e.x && 0 <= cy < e.y
}

/// The row-major index of a cell.
pub open spec fn pixel_index(e: Extent, cx: int, cy: int) -> int {
    cy * e.x + cx
}

/// The sum of a sequence of counters.
pub open spec fn sum_of(s: Seq<u64>) -> int
    decreases s.len(),
{
    if s.len() == 0 {
        0
    } else {
        sum_of(s.drop_last()) + s.last()
    }
}

proof fn lemma_sum_of_zeros(n: nat)
    ensures
        sum_of(Seq::new(n, |i: int| 0u64)) == 0,
    decreases n,
{
    if n > 0 {
        assert(Seq::new(n, |i: int| 0u64).drop_last() =~= Seq::new((n - 1) as nat, |i: int| 0u64));
        lemma_sum_of_zeros((n - 1) as nat);
    }
}

proof fn lemma_sum_of_bump(s: Seq<u64>, i: int)
    requires
        0 <= i < s.len(),
        s[i] < u64::MAX,
    ensures
        sum_of(s.update(i, (s[i] + 1) as u64)) == sum_of(s) + 1,
    decreases s.len(),
{
    let t = s.update(i, (s[i] + 1) as u64);
    if i == s.len() - 1 {
        assert(t.drop_last() =~= s.drop_last());
    } else {
        assert(t.drop_last() =~= s.drop_last().update(i, (s[i] + 1) as u64));
        lemma_sum_of_bump(s.drop_last(), i);
    }
}

proof fn lemma_cell_below_area(e: Extent, cx: int, cy: int)
    requires
        fits(e, cx, cy),
    ensures
        0 <= pixel_index(e, cx, cy) < e.x * e.y,
{
    assert(cy * e.x + cx < e.x * e.y) by (nonlinear_arith)
        requires
            0 <= cx < e.x,
            0 <= cy < e.y,
    ;
    assert(0 <= cy * e.x) by (nonlinear_arith)
        requires
            0 <= cy,
            0 <= e.x,
    ;
}

impl Extent {
    pub fn new(x: usize, y: usize) -> (r: Extent)
        ensures
            r == (Extent { x, y }),
    {
        Extent { x, y }
    }

    /// Number of pixels, where it fits in a `usize`.
    pub fn pixel_count(&self) -> (r: Option<usize>)
        ensures
            r is Some <==> self.x * self.y <= usize::MAX,
            r is Some ==> r.unwrap() == self.x * self.y,
    {
        self.x.checked_mul(self.y)
    }

    /// Whether the cell `(cell_x, cell_y)` lies in the grid.
    pub fn does_fit(&self, cell_x: i64, cell_y: i64) -> (r: bool)
        ensures
            r == fits(*self, cell_x as int, cell_y as int),
    {
        0 <= cell_x && 0 <= cell_y && (cell_x as u64 as u128) < (self.x as u128) && (
        cell_y as u64 as u128) < (self.y as u128)
    }

    /// The row-major index of a cell of the grid.
    pub fn to_pixel(&self, cell_x: i64, cell_y: i64) -> (r: usize)
        requires
            fits(*self, cell_x as int, cell_y as int),
            self.x * self.y <= usize::MAX,
        ensures
            r == pixel_index(*self, cell_x as int, cell_y as int),
    {
        proof {
            lemma_cell_below_area(*self, cell_x as int, cell_y as int);
        }
        (cell_y as usize) * self.x + (cell_x as usize)
    }
}

/// Counts of the samples that a renderer has seen: how many fell into each
/// pixel, how many fell into the frame, and how many arrived in all.
pub struct Tally {
    extent: Extent,
    hits: Vec<u64>,
    fit_count: u64,
    total_count: u64,
}

impl Tally {
    pub closed spec fn extent_spec(&self) -> Extent {
        self.extent
    }

    pub closed spec fn hits_spec(&self) -> Seq<u64> {
        self.hits@
    }

    pub closed spec fn fit_spec(&self) -> u64 {
        self.fit_count
    }

    pub closed spec fn total_spec(&self) -> u64 {
        self.total_count
    }

    /// The tally's counters agree: one counter per pixel, the pixel counters
    /// sum to the samples in frame, which are no more than all samples.
    pub open spec fn wf(&self) -> bool {
        &&& self.extent_spec().x * self.extent_spec().y <= usize::MAX
        &&& self.hits_spec().len() == self.extent_spec().x * self.extent_spec().y
        &&& sum_of(self.hits_spec()) == self.fit_spec()
        &&& self.fit_spec() <= self.total_spec()
    }

    /// An empty tally over the grid `extent`.
    pub fn new(extent: Extent) -> (r: Tally)
        requires
            extent.x * extent.y <= usize::MAX,
        ensures
            r.wf(),
            r.extent_spec() == extent,
            r.hits_spec() == Seq::new((extent.x * extent.y) as nat, |i: int| 0u64),
            r.fit_spec() == 0,
            r.total_spec() == 0,
    {
        let n = extent.x * extent.y;
        let mut hits: Vec<u64> = Vec::new();
        let mut i: usize = 0;
        while i < n
            invariant
                i <= n,
                hits@ == Seq::new(i as nat, |k: int| 0u64),
            decreases n - i,
        {
            hits.push(0);
            i = i + 1;
            assert(hits@ =~= Seq::new(i as nat, |k: int| 0u64));
        }
        proof {
            lemma_sum_of_zeros(n as nat);
        }
        Tally { extent, hits, fit_count: 0, total_count: 0 }
    }

    /// Counts one sample whose projection falls in `cell` (`None` for a
    /// coordinate that is not a number). A sample in frame adds one to its
    /// pixel and to the in-frame count, and its pixel index is returned; any
    /// other sample is only counted among all samples.
    pub fn record(&mut self, cell: Option<(i64, i64)>) -> (r: Option<usize>)
        requires
            old(self).wf(),
            old(self).total_spec() < u64::MAX,
        ensures
            final(self).wf(),
            final(self).extent_spec() == old(self).extent_spec(),
            final(self).total_spec() == old(self).total_spec() + 1,
            match cell {
                Some((cx, cy)) if fits(old(self).extent_spec(), cx as int, cy as int) => {
                    let i = pixel_index(old(self).extent_spec(), cx as int, cy as int);
                    &&& r == Some(i as usize)
                    &&& final(self).hits_spec() == old(self).hits_spec().update(
                        i,
                        (old(self).hits_spec()[i] + 1) as u64,
                    )
                    &&& final(self).fit_spec() == old(self).fit_spec() + 1
                },
                _ => {
                    &&& r is None
                    &&& final(self).hits_spec() == old(self).hits_spec()
                    &&& final(self).fit_spec() == old(self).fit_spec()
                },
            },
    {
        self.total_count = self.total_count + 1;
        match cell {
            Some((cx, cy)) => {
                if self.extent.does_fit(cx, cy) {
                    proof {
                        lemma_cell_below_area(self.extent, cx as int, cy as int);
                    }
                    let i = self.extent.to_pixel(cx, cy);
                    proof {
                        lemma_hit_below_fit(self.hits@, i as int);
                        lemma_sum_of_bump(self.hits@, i as int);
                    }
                    let h = self.hits[i];
                    self.hits.set(i, h + 1);
                    self.fit_count = self.fit_count + 1;
                    Some(i)
                } else {
                    None
                }
            },
            None => None,
        }
    }

    /// The grid that this tally covers.
    pub fn extent(&self) -> (r: Extent)
        ensures
            r == self.extent_spec(),
    {
        self.extent
    }

    /// Samples that fell into pixel `i`.
    pub fn hits(&self, i: usize) -> (r: u64)
        requires
            i < self.hits_spec().len(),
        ensures
            r == self.hits_spec()[i as int],
    {
        self.hits[i]
    }

    /// Samples that fell into the frame.
    pub fn fit_count(&self) -> (r: u64)
        ensures
            r == self.fit_spec(),
    {
        self.fit_count
    }

    /// All samples counted.
    pub fn total_count(&self) -> (r: u64)
        ensures
            r == self.total_spec(),
    {
        self.total_count
    }
}

/// No counter exceeds the sum of all of them.
proof fn lemma_hit_below_fit(s: Seq<u64>, i: int)
    requires
        0 <= i < s.len(),
    ensures
        s[i] <= sum_of(s),
    decreases s.len(),
{
    lemma_sum_of_nonneg(s.drop_last());
    if i < s.len() - 1 {
        lemma_hit_below_fit(s.drop_last(), i);
    }
}

proof fn lemma_sum_of_nonneg(s: Seq<u64>)
    ensures
        sum_of(s) >= 0,
    decreases s.len(),
{
    if s.len() > 0 {
        lemma_sum_of_nonneg(s.drop_last());
    }
}

} // verus!
