use vstd::prelude::*;
use rand::Rng;
use crate::error::Error;
use vstd::arithmetic::div_mod::{lemma_fundamental_div_mod, lemma_fundamental_div_mod_converse};

verus! {

/// Bit pattern of positive infinity. A double with a bit pattern below it
/// is finite and non-negative, and on such doubles the order of the bit
/// patterns as unsigned integers is their numeric order.
pub const INFINITY_BITS: u64 = 0x7ff0_0000_0000_0000;

/// `k` is the bit pattern of a finite, non-negative double.
pub open spec fn is_weight_key(k: u64) -> bool {
    k < INFINITY_BITS
}

/// Cumulative weight boundaries that a system can be built on: at least
/// one, each a finite non-negative double, never decreasing, the last (the total
/// weight) positive.
pub open spec fn limits_valid(limits: Seq<u64>) -> bool {
    &&& limits.len() > 0
    &&& forall|i: int| 0 <= i < limits.len() ==> is_weight_key(#[trigger] limits[i])
    &&& forall|i: int, j: int| 0 <= i <= j < limits.len() ==> limits[i] <= limits[j]
    &&& limits.last() > 0
}

/// Transform `i` is the one picked for the draw `key`: the first whose
/// boundary exceeds the draw, or the last where none does.
pub open spec fn picks(limits: Seq<u64>, key: u64, i: int) -> bool {
    &&& 0 <= i < limits.len()
    &&& (key < limits[i] || i == limits.len() - 1)
    &&& forall|j: int| 0 <= j < i ==> limits[j] <= key
}

/// The lower end of the draws that fall to transform `i`.
pub open spec fn lower_limit(limits: Seq<u64>, i: int) -> u64 {
    if i == 0 {
        0
    } else {
        limits[i - 1]
    }
}

/// A walker's lifetime after one step: an expired walker (lifetime at or
/// below zero) is re-seeded with `fresh`, and every step then ages it by one.
pub open spec fn next_ttl(ttl: int, fresh: int) -> int {
    if ttl <= 0 {
        fresh - 1
    } else {
        ttl - 1
    }
}

/// The lifetime after `n` steps when every re-seeding gives `fresh`.
pub open spec fn ttl_after(ttl: int, fresh: int, n: nat) -> int
    decreases n,
{
    if n == 0 {
        ttl
    } else {
        next_ttl(ttl_after(ttl, fresh, (n - 1) as nat), fresh)
    }
}

/// The error that building a system with these parts reports, if any.
pub open spec fn build_error(transform_count: nat, limits: Seq<u64>, ttl: i32) -> Option<
    Error,
> {
    if transform_count == 0 {
        Some(Error { description: "No transforms" })
    } else if limits.len() != transform_count {
        Some(Error { description: "Weight count differs from transform count" })
    } else if !limits_valid(limits) {
        Some(Error { description: "Invalid weights" })
    } else if ttl < 1 {
        Some(Error { description: "TTL must be positive" })
    } else {
        None
    }
}

/// What one chaos-game step does to a walker: which transform animates
/// it, whether it is re-seeded first, and its lifetime afterwards.
#[derive(Debug, Clone, Copy, PartialEq, Eq)]
pub struct Move {
    pub transform: usize,
    pub reset: bool,
    pub ttl: i32,
}

/// Relies on rand's `thread_rng` and `Rng::gen_range`: a value drawn from
/// the half-open range `low..high` (the call panics on an empty range).
#[verifier::external_body]
fn draw_in_range(low: i32, high: i32) -> (r: i32)
    requires
        low < high,
    ensures
        low <= r < high,
{
    rand::thread_rng().gen_range(low..high)
}

/// A weighted set of transforms with a final transform, the affine map that
/// places re-seeded walkers, and the bound on walker lifetimes. The
/// transforms are chosen by a draw against cumulative weight boundaries;
/// boundaries and draws are bit patterns of non-negative doubles.
pub struct System<T, A> {
    transforms: Vec<T>,
    limits: Vec<u64>,
    final_transform: T,
    reset_transformation: A,
    ttl: i32,
}

impl<T, A> System<T, A> {
    pub open spec fn wf(&self) -> bool {
        &&& limits_valid(self.limits_spec())
        &&& self.transforms_spec().len() == self.limits_spec().len()
        &&& self.ttl_spec() >= 1
    }

    pub closed spec fn ttl_spec(&self) -> i32 {
        self.ttl
    }

    pub closed spec fn final_spec(&self) -> T {
        self.final_transform
    }

    pub closed spec fn reset_spec(&self) -> A {
        self.reset_transformation
    }

    pub closed spec fn transforms_spec(&self) -> Seq<T> {
        self.transforms@
    }

    pub closed spec fn limits_spec(&self) -> Seq<u64> {
        self.limits@
    }

    /// Builds a system from its transforms and their cumulative weight
    /// boundaries, rejecting parts that no chaos game can run on.
    pub fn new(
        transforms: Vec<T>,
        limits: Vec<u64>,
        final_transform: T,
        reset_transformation: A,
        ttl: i32,
    ) -> (r: Result<System<T, A>, Error>)
        ensures
            r is Ok <==> build_error(transforms@.len(), limits@, ttl) is None,
            r is Err ==> r == Err::<System<T, A>, Error>(
                build_error(transforms@.len(), limits@, ttl).unwrap(),
            ),
            r is Ok ==> {
                let s = r.unwrap();
                &&& s.wf()
                &&& s.transforms_spec() == transforms@
                &&& s.limits_spec() == limits@
                &&& s.final_spec() == final_transform
                &&& s.reset_spec() == reset_transformation
                &&& s.ttl_spec() == ttl
            },
    {
        if transforms.len() == 0 {
            return Err(Error::new("No transforms"));
        }
        if limits.len() != transforms.len() {
            return Err(Error::new("Weight count differs from transform count"));
        }
        if !check_limits(&limits) {
            return Err(Error::new("Invalid weights"));
        }
        if ttl < 1 {
            return Err(Error::new("TTL must be positive"));
        }
        Ok(System { transforms, limits, final_transform, reset_transformation, ttl })
    }

    /// The transform applied to every emitted sample.
    pub fn final_transform(&self) -> (r: &T)
        ensures
            *r == self.final_spec(),
    {
        &self.final_transform
    }

    /// The affine map that places re-seeded walkers.
    pub fn reset_transformation(&self) -> (r: &A)
        ensures
            *r == self.reset_spec(),
    {
        &self.reset_transformation
    }

    /// The bound on walker lifetimes.
    pub fn ttl(&self) -> (r: i32)
        ensures
            r == self.ttl_spec(),
    {
        self.ttl
    }

    pub fn transform_count(&self) -> (r: usize)
        ensures
            r == self.transforms_spec().len(),
    {
        self.transforms.len()
    }

    /// The total weight: the bit pattern of the last boundary.
    pub fn max_range(&self) -> (r: u64)
        requires
            self.wf(),
        ensures
            r == self.limits_spec().last(),
    {
        self.limits[self.limits.len() - 1]
    }

    /// Index of the transform that the draw `key` selects: the first whose
    /// boundary exceeds the draw, or the last where rounding left the draw
    /// at or above every boundary.
    pub fn pick_index(&self, key: u64) -> (r: usize)
        requires
            self.wf(),
        ensures
            picks(self.limits_spec(), key, r as int),
    {
        let n = self.limits.len();
        let mut i: usize = 0;
        while i + 1 < n
            invariant
                n == self.limits@.len(),
                n > 0,
                i < n,
                forall|j: int| 0 <= j < i ==> self.limits@[j] <= key,
            decreases n - i,
        {
            if key < self.limits[i] {
                return i;
            }
            i = i + 1;
        }
        i
    }

    /// The transform that the draw `key` selects.
    pub fn pick_transform(&self, key: u64) -> (r: &T)
        requires
            self.wf(),
        ensures
            exists|i: int| picks(self.limits_spec(), key, i) && *r == self.transforms_spec()[i],
    {
        let i = self.pick_index(key);
        &self.transforms[i]
    }

    /// The transform at position `i`.
    pub fn transform(&self, i: usize) -> (r: &T)
        requires
            i < self.transforms_spec().len(),
        ensures
            *r == self.transforms_spec()[i as int],
    {
        &self.transforms[i]
    }

    /// A lifetime for a freshly seeded walker, drawn from `1..ttl`; where that
    /// range is empty (a bound of one) the lifetime is one.
    pub fn fresh_ttl(&self) -> (r: i32)
        requires
            self.wf(),
        ensures
            1 <= r,
            r < self.ttl_spec() || r == 1,
    {
        if self.ttl <= 1 {
            1
        } else {
            draw_in_range(1, self.ttl)
        }
    }

    /// The step for a walker of lifetime `ttl` and the transform draw `key`,
    /// where `fresh` is the lifetime that a re-seeding gives.
    pub fn plan_move(&self, ttl: i32, key: u64, fresh: i32) -> (r: Move)
        requires
            self.wf(),
            fresh >= 1,
        ensures
            picks(self.limits_spec(), key, r.transform as int),
            r.reset == (ttl <= 0),
            r.ttl == next_ttl(ttl as int, fresh as int),
    {
        let transform = self.pick_index(key);
        if ttl <= 0 {
            Move { transform, reset: true, ttl: fresh - 1 }
        } else {
            Move { transform, reset: false, ttl: ttl - 1 }
        }
    }

    /// The step for a walker of lifetime `ttl` and the transform draw `key`;
    /// an expired walker is re-seeded with a lifetime drawn by `fresh_ttl`.
    pub fn next_move(&self, ttl: i32, key: u64) -> (r: Move)
        requires
            self.wf(),
        ensures
            picks(self.limits_spec(), key, r.transform as int),
            r.reset == (ttl <= 0),
            !r.reset ==> r.ttl == ttl - 1,
            r.reset ==> 0 <= r.ttl && (r.ttl < self.ttl_spec() - 1 || r.ttl == 0),
    {
        let fresh = if ttl <= 0 {
            self.fresh_ttl()
        } else {
            1
        };
        self.plan_move(ttl, key, fresh)
    }
}

/// Whether the boundaries are valid for a system (see `limits_valid`).
pub fn check_limits(limits: &Vec<u64>) -> (r: bool)
    ensures
        r == limits_valid(limits@),
{
    let n = limits.len();
    if n == 0 {
        return false;
    }
    let mut i: usize = 0;
    while i < n
        invariant
            n == limits@.len(),
            i <= n,
            forall|j: int| 0 <= j < i ==> is_weight_key(#[trigger] limits@[j]),
            forall|j: int, k: int| 0 <= j <= k < i ==> limits@[j] <= limits@[k],
        decreases n - i,
    {
        if limits[i] >= INFINITY_BITS {
            return false;
        }
        if i > 0 && limits[i - 1] > limits[i] {
            return false;
        }
        i = i + 1;
    }
    limits[n - 1] > 0
}

/// Over valid boundaries, the draws below the total weight that select
/// transform `i` are exactly those from the boundary before it (zero for the
/// first) up to its own boundary; a uniform draw thus selects each transform
/// in proportion to its weight, and a transform of weight zero never.
pub proof fn lemma_pick_interval(limits: Seq<u64>, key: u64, i: int)
    requires
        limits_valid(limits),
        0 <= i < limits.len(),
        key < limits.last(),
    ensures
        picks(limits, key, i) <==> lower_limit(limits, i) <= key < limits[i],
{
    if lower_limit(limits, i) <= key < limits[i] {
        assert forall|j: int| 0 <= j < i implies limits[j] <= key by {
            assert(limits[j] <= limits[i - 1]);
        }
    }
    if picks(limits, key, i) && i == limits.len() - 1 {
        assert(key < limits[i]);
    }
}

proof fn lemma_ttl_after_steps(ttl: int, t: int, k: nat)
    requires
        ttl <= 0,
        t >= 1,
        k >= 1,
    ensures
        ttl_after(ttl, t, k) == t - 1 - (k - 1) % t,
    decreases k,
{
    if k == 1 {
        assert(ttl_after(ttl, t, 0) == ttl);
        lemma_fundamental_div_mod_converse(0, t, 0, 0);
    } else {
        let k1 = (k - 1) as nat;
        lemma_ttl_after_steps(ttl, t, k1);
        let r = (k1 - 1) % t;
        let q = (k1 - 1) / t;
        lemma_fundamental_div_mod(k1 - 1, t);
        assert(k1 - 1 == q * t + r) by (nonlinear_arith)
            requires
                k1 - 1 == t * q + r,
        ;
        assert(0 <= r < t);
        if r == t - 1 {
            assert(k - 1 == (q + 1) * t + 0) by (nonlinear_arith)
                requires
                    k1 - 1 == q * t + r,
                    r == t - 1,
                    k1 == k - 1,
            ;
            lemma_fundamental_div_mod_converse(k - 1, t, q + 1, 0);
        } else {
            assert(k - 1 == q * t + (r + 1)) by (nonlinear_arith)
                requires
                    k1 - 1 == q * t + r,
                    k1 == k - 1,
            ;
            lemma_fundamental_div_mod_converse(k - 1, t, q, r + 1);
        }
    }
}

/// When every re-seeding gives the lifetime `t`, a walker that starts
/// expired is re-seeded exactly on steps 0, t, 2t, ...: once every `t`
/// steps.
pub proof fn lemma_reset_period(ttl: int, t: int, k: nat)
    requires
        ttl <= 0,
        t >= 1,
    ensures
        ttl_after(ttl, t, k) <= 0 <==> (k as int) % t == 0,
{
    if k == 0 {
        lemma_fundamental_div_mod_converse(0, t, 0, 0);
    } else {
        lemma_ttl_after_steps(ttl, t, k);
        let r = (k - 1) % t;
        let q = (k - 1) / t;
        lemma_fundamental_div_mod(k - 1, t);
        assert(k - 1 == q * t + r) by (nonlinear_arith)
            requires
                k - 1 == t * q + r,
        ;
        if r == t - 1 {
            assert(k == (q + 1) * t + 0) by (nonlinear_arith)
                requires
                    k - 1 == q * t + r,
                    r == t - 1,
            ;
            lemma_fundamental_div_mod_converse(k as int, t, q + 1, 0);
        } else {
            assert(k == q * t + (r + 1)) by (nonlinear_arith)
                requires
                    k - 1 == q * t + r,
            ;
            lemma_fundamental_div_mod_converse(k as int, t, q, r + 1);
        }
    }
}

} // verus!
