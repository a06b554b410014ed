use crate::rng::random_i32_ranged;
use vstd::prelude::*;

verus! {

/// Number of lattice points along each axis before the tables wrap around.
pub const POINT_COUNT: usize = 256;

/// `p` holds each of `0 .. n` exactly once.
pub open spec fn is_permutation_of_range(p: Seq<i32>, n: int) -> bool {
    &&& p.len() == n
    &&& forall|i: int| 0 <= i < n ==> 0 <= #[trigger] p[i] < n
    &&& forall|a: int, b: int| 0 <= a < n && 0 <= b < n && a != b ==> #[trigger] p[a] != #[trigger] p[b]
}

/// Gradient lattice for Perlin noise: one gradient per table slot and three
/// permutation tables that hash integer lattice coordinates to a slot.
pub struct Perlin<G> {
    randvec: Vec<G>,
    perm_x: Vec<i32>,
    perm_y: Vec<i32>,
    perm_z: Vec<i32>,
}

/// Table slot of the lattice point with coordinates `(i, j, k)`, given the
/// three permutation tables: the low eight bits of each coordinate pick an
/// entry of its table, and the three entries are combined by exclusive or.
pub open spec fn lattice_slot(px: Seq<i32>, py: Seq<i32>, pz: Seq<i32>, i: i32, j: i32, k: i32) -> int {
    (px[(i & 255) as int] ^ py[(j & 255) as int] ^ pz[(k & 255) as int]) as int
}

impl<G: Copy> Perlin<G> {
    pub closed spec fn gradients(&self) -> Seq<G> {
        self.randvec@
    }

    pub closed spec fn perm_x(&self) -> Seq<i32> {
        self.perm_x@
    }

    pub closed spec fn perm_y(&self) -> Seq<i32> {
        self.perm_y@
    }

    pub closed spec fn perm_z(&self) -> Seq<i32> {
        self.perm_z@
    }

    pub open spec fn wf(&self) -> bool {
        &&& self.gradients().len() == POINT_COUNT
        &&& is_permutation_of_range(self.perm_x(), POINT_COUNT as int)
        &&& is_permutation_of_range(self.perm_y(), POINT_COUNT as int)
        &&& is_permutation_of_range(self.perm_z(), POINT_COUNT as int)
    }

    /// Builds the lattice over the given gradients, shuffling a fresh
    /// permutation table for each axis.
    pub fn new(randvec: Vec<G>) -> (r: Self)
        requires
            randvec@.len() == POINT_COUNT,
        ensures
            r.wf(),
            r.gradients() == randvec@,
    {
        let perm_x = Self::perlin_generate_perm();
        let perm_y = Self::perlin_generate_perm();
        let perm_z = Self::perlin_generate_perm();
        Perlin { randvec, perm_x, perm_y, perm_z }
    }

    /// Table slot of the lattice point `(i, j, k)`.
    pub fn lattice_index(&self, i: i32, j: i32, k: i32) -> (r: usize)
        requires
            self.wf(),
        ensures
            r == lattice_slot(self.perm_x(), self.perm_y(), self.perm_z(), i, j, k),
            r < POINT_COUNT,
    {
        let a = i & 255;
        let b = j & 255;
        let c = k & 255;
        assert(0 <= a < 256 && 0 <= b < 256 && 0 <= c < 256) by (bit_vector)
            requires a == i & 255, b == j & 255, c == k & 255;
        let x = self.perm_x[a as usize];
        let y = self.perm_y[b as usize];
        let z = self.perm_z[c as usize];
        assert(0 <= x < 256 && 0 <= y < 256 && 0 <= z < 256);
        let h = x ^ y ^ z;
        assert(0 <= h < 256) by (bit_vector)
            requires h == x ^ y ^ z, 0 <= x < 256, 0 <= y < 256, 0 <= z < 256;
        h as usize
    }

    /// Gradient stored at the lattice point `(i, j, k)`.
    pub fn gradient(&self, i: i32, j: i32, k: i32) -> (r: G)
        requires
            self.wf(),
        ensures
            r == self.gradients()[lattice_slot(self.perm_x(), self.perm_y(), self.perm_z(), i, j, k)],
    {
        let slot = self.lattice_index(i, j, k);
        self.randvec[slot]
    }

    /// The identity table on `0 .. POINT_COUNT`, then shuffled.
    fn perlin_generate_perm() -> (p: Vec<i32>)
        ensures
            is_permutation_of_range(p@, POINT_COUNT as int),
    {
        let mut p: Vec<i32> = Vec::new();
        let mut i: usize = 0;
        while i < POINT_COUNT
            invariant
                i <= POINT_COUNT,
                p@.len() == i,
                forall|m: int| 0 <= m < i ==> #[trigger] p@[m] == m,
            decreases POINT_COUNT - i,
        {
            p.push(i as i32);
            i = i + 1;
        }
        Self::permute(&mut p, POINT_COUNT);
        p
    }

    /// Fisher-Yates shuffle of the first `n` entries.
    fn permute(p: &mut Vec<i32>, n: usize)
        requires
            n == old(p)@.len(),
            n <= POINT_COUNT,
            is_permutation_of_range(old(p)@, n as int),
        ensures
            is_permutation_of_range(final(p)@, n as int),
    {
        let mut i: usize = n;
        while i > 1
            invariant
                1 <= i <= n || n == 0,
                i <= n,
                n <= POINT_COUNT,
                is_permutation_of_range(p@, n as int),
            decreases i,
        {
            i = i - 1;
            let target = random_i32_ranged(0, i as i32) as usize;
            let tmp = p[i];
            let other = p[target];
            p.set(i, other);
            p.set(target, tmp);
            assert(is_permutation_of_range(p@, n as int)) by {
                assert forall|a: int, b: int| 0 <= a < n && 0 <= b < n && a != b implies #[trigger] p@[a] != #[trigger] p@[b] by {
                }
            }
        }
    }
}

} // verus!
