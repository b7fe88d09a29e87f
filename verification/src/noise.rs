//! The lattice tables of gradient noise: permutations of the 256 lattice
//! indices, and the hashing of lattice points into them.

use vstd::prelude::*;

verus! {

/// The number of lattice points in a table.
pub const POINT_COUNT: usize = 256;

/// Whether `p` holds each of the numbers below [`POINT_COUNT`] exactly once.
pub open spec fn is_permutation(p: Seq<usize>) -> bool {
    &&& p.len() == POINT_COUNT
    &&& forall|i: int| 0 <= i < p.len() ==> #[trigger] p[i] < POINT_COUNT
    &&& forall|i: int, j: int| 0 <= i < j < p.len() ==> #[trigger] p[i] != #[trigger] p[j]
    &&& forall|v: usize| v < POINT_COUNT ==> #[trigger] p.contains(v)
}

/// The table that holds every index at its own place.
pub open spec fn identity() -> Seq<usize> {
    Seq::new(POINT_COUNT as nat, |i: int| i as usize)
}

/// `p` with the entries at `a` and `b` exchanged.
pub open spec fn swapped(p: Seq<usize>, a: int, b: int) -> Seq<usize> {
    p.update(a, p[b]).update(b, p[a])
}

/// The place that is exchanged at step `k` of a shuffle: the steps go from
/// the last place but one down to the second.
pub open spec fn place_of_step(k: int) -> int {
    POINT_COUNT - 2 - k
}

/// The number of steps of a shuffle.
pub open spec fn step_count() -> int {
    POINT_COUNT - 2
}

/// `p` after the first `n` steps of the shuffle that `targets` describes:
/// step `k` exchanges the entry at its place with the entry at
/// `targets[k]`.
pub open spec fn shuffled(p: Seq<usize>, targets: Seq<i64>, n: int) -> Seq<usize>
    decreases n,
{
    if n <= 0 {
        p
    } else {
        swapped(shuffled(p, targets, n - 1), place_of_step(n - 1), targets[n - 1] as int)
    }
}

/// Whether `targets` describes a shuffle: one target for each step, each of
/// them a place of the table.
pub open spec fn are_targets(targets: Seq<i64>) -> bool {
    &&& targets.len() == step_count()
    &&& forall|k: int| 0 <= k < targets.len() ==> 0 <= #[trigger] targets[k] < POINT_COUNT
}

/// The identity is a permutation.
pub proof fn lemma_identity_is_permutation()
    ensures
        is_permutation(identity()),
{
    let p = identity();
    assert forall|v: usize| v < POINT_COUNT implies #[trigger] p.contains(v) by {
        assert(p[v as int] == v);
    }
}

/// Exchanging two entries of a permutation gives a permutation.
pub proof fn lemma_swap_keeps_permutation(p: Seq<usize>, a: int, b: int)
    requires
        is_permutation(p),
        0 <= a < POINT_COUNT,
        0 <= b < POINT_COUNT,
    ensures
        is_permutation(swapped(p, a, b)),
{
    let q = swapped(p, a, b);
    assert forall|i: int| 0 <= i < q.len() implies #[trigger] q[i] < POINT_COUNT by {
        assert(q[i] == p[if i == a { b } else if i == b { a } else { i }]);
    }
    assert forall|i: int, j: int| 0 <= i < j < q.len() implies #[trigger] q[i] != #[trigger] q[j] by {
        let i0 = if i == a { b } else if i == b { a } else { i };
        let j0 = if j == a { b } else if j == b { a } else { j };
        assert(q[i] == p[i0]);
        assert(q[j] == p[j0]);
        if i0 < j0 {
            assert(p[i0] != p[j0]);
        } else {
            assert(p[j0] != p[i0]);
        }
    }
    assert forall|v: usize| v < POINT_COUNT implies #[trigger] q.contains(v) by {
        assert(p.contains(v));
        let i0 = choose|i: int| 0 <= i < p.len() && p[i] == v;
        let i1 = if i0 == a { b } else if i0 == b { a } else { i0 };
        assert(q[i1] == v);
    }
}

/// Every shuffle of a permutation is a permutation.
pub proof fn lemma_shuffle_keeps_permutation(p: Seq<usize>, targets: Seq<i64>, n: int)
    requires
        is_permutation(p),
        are_targets(targets),
        0 <= n <= step_count(),
    ensures
        is_permutation(shuffled(p, targets, n)),
    decreases n,
{
    if n > 0 {
        lemma_shuffle_keeps_permutation(p, targets, n - 1);
        lemma_swap_keeps_permutation(
            shuffled(p, targets, n - 1),
            place_of_step(n - 1),
            targets[n - 1] as int,
        );
    }
}

/// Shuffles `p` in place: for each place from the last but one down to the
/// second, the entry there is exchanged with the entry at the next of
/// `targets`.
pub fn permute(targets: &Vec<i64>, p: &mut [usize; 256])
    requires
        are_targets(targets@),
    ensures
        final(p)@ == shuffled(old(p)@, targets@, step_count()),
{
    let mut k: usize = 0;
    while k < POINT_COUNT - 2
        invariant
            k <= POINT_COUNT - 2,
            are_targets(targets@),
            p@ == shuffled(old(p)@, targets@, k as int),
        decreases POINT_COUNT - 2 - k,
    {
        let i: usize = POINT_COUNT - 2 - k;
        let target: usize = targets[k] as usize;
        let ghost before = p@;
        let held: usize = p[i];
        p[i] = p[target];
        p[target] = held;
        assert(p@ =~= swapped(before, i as int, target as int));
        k += 1;
    }
}

/// A table shuffled from the identity as `targets` describes.
pub fn generate_perm(targets: &Vec<i64>) -> (p: [usize; 256])
    requires
        are_targets(targets@),
    ensures
        p@ == shuffled(identity(), targets@, step_count()),
        is_permutation(p@),
{
    let mut p: [usize; 256] = [0;256];
    let mut i: usize = 0;
    while i < POINT_COUNT
        invariant
            i <= POINT_COUNT,
            forall|j: int| 0 <= j < i ==> #[trigger] p@[j] == j,
        decreases POINT_COUNT - i,
    {
        p[i] = i;
        i += 1;
    }
    assert(p@ =~= identity());
    permute(targets, &mut p);
    proof {
        lemma_identity_is_permutation();
        lemma_shuffle_keeps_permutation(identity(), targets@, step_count());
    }
    p
}

/// The place in a table for the lattice coordinate `i + d`: the coordinate
/// modulo [`POINT_COUNT`], between 0 and 255 also where it is negative.
pub open spec fn slot(i: i64, d: i64) -> int {
    (i + d) % 256
}

/// The place in a table for the lattice coordinate `i + d`.
pub fn slot_of(i: i64, d: i64) -> (s: usize)
    requires
        0 <= d <= 1,
    ensures
        s == slot(i, d),
        s < POINT_COUNT,
{
    let r: i64 = i.wrapping_add(d);
    let m: i64 = r & 255;
    assert(0 <= m < 256 && m == r % 256) by (bit_vector)
        requires
            m == r & 255,
    ;
    assert(r % 256 == (i + d) % 256) by {
        if r != i + d {
            assert(r == i + d - 0x1_0000_0000_0000_0000);
            assert((i + d - 0x1_0000_0000_0000_0000) % 256 == (i + d) % 256) by {
                vstd::arithmetic::div_mod::lemma_mod_multiples_vanish(
                    -0x100_0000_0000_0000,
                    i + d,
                    256,
                );
            }
        }
    }
    m as usize
}

/// The three tables of a lattice, one for each axis.
pub struct Lattice {
    perm_x: [usize; 256],
    perm_y: [usize; 256],
    perm_z: [usize; 256],
}

impl Lattice {
    /// The table of the x axis.
    pub closed spec fn x(&self) -> Seq<usize> {
        self.perm_x@
    }

    /// The table of the y axis.
    pub closed spec fn y(&self) -> Seq<usize> {
        self.perm_y@
    }

    /// The table of the z axis.
    pub closed spec fn z(&self) -> Seq<usize> {
        self.perm_z@
    }

    /// Each table is a permutation.
    pub open spec fn wf(&self) -> bool {
        is_permutation(self.x()) && is_permutation(self.y()) && is_permutation(self.z())
    }

    /// The index that the lattice point `(i + di, j + dj, k + dk)` hashes
    /// to.
    pub open spec fn index_at(&self, i: i64, j: i64, k: i64, di: i64, dj: i64, dk: i64) -> usize {
        self.x()[slot(i, di)] ^ self.y()[slot(j, dj)] ^ self.z()[slot(k, dk)]
    }

    /// The lattice whose tables are shuffled from the identity as the three
    /// lists of targets describe.
    pub fn new(targets_x: &Vec<i64>, targets_y: &Vec<i64>, targets_z: &Vec<i64>) -> (lattice: Self)
        requires
            are_targets(targets_x@),
            are_targets(targets_y@),
            are_targets(targets_z@),
        ensures
            lattice.wf(),
            lattice.x() == shuffled(identity(), targets_x@, step_count()),
            lattice.y() == shuffled(identity(), targets_y@, step_count()),
            lattice.z() == shuffled(identity(), targets_z@, step_count()),
    {
        let perm_x = generate_perm(targets_x);
        let perm_y = generate_perm(targets_y);
        let perm_z = generate_perm(targets_z);
        Self { perm_x, perm_y, perm_z }
    }

    /// The table of the x axis.
    pub fn perm_x(&self) -> (p: &[usize; 256])
        ensures
            p@ == self.x(),
    {
        &self.perm_x
    }

    /// The table of the y axis.
    pub fn perm_y(&self) -> (p: &[usize; 256])
        ensures
            p@ == self.y(),
    {
        &self.perm_y
    }

    /// The table of the z axis.
    pub fn perm_z(&self) -> (p: &[usize; 256])
        ensures
            p@ == self.z(),
    {
        &self.perm_z
    }

    /// The index that the lattice point `(i + di, j + dj, k + dk)` hashes
    /// to: the entries of the three tables for its coordinates, combined by
    /// exclusive or. It is an index into a table of [`POINT_COUNT`]
    /// entries.
    pub fn corner(&self, i: i64, j: i64, k: i64, di: i64, dj: i64, dk: i64) -> (index: usize)
        requires
            self.wf(),
            0 <= di <= 1,
            0 <= dj <= 1,
            0 <= dk <= 1,
        ensures
            index == self.index_at(i, j, k, di, dj, dk),
            index < POINT_COUNT,
    {
        let a: usize = self.perm_x[slot_of(i, di)];
        let b: usize = self.perm_y[slot_of(j, dj)];
        let c: usize = self.perm_z[slot_of(k, dk)];
        assert(a ^ b ^ c < 256) by (bit_vector)
            requires
                a < 256,
                b < 256,
                c < 256,
        ;
        a ^ b ^ c
    }

    /// The indices that the eight corners of the lattice cell at `(i, j,
    /// k)` hash to; the corner `(i + di, j + dj, k + dk)` stands at
    /// `[di][dj][dk]`.
    pub fn corners(&self, i: i64, j: i64, k: i64) -> (indices: [[[usize; 2]; 2]; 2])
        requires
            self.wf(),
        ensures
            forall|di: int, dj: int, dk: int|
                0 <= di < 2 && 0 <= dj < 2 && 0 <= dk < 2 ==> {
                    &&& (#[trigger] indices@[di]@[dj]@[dk]) == self.index_at(
                        i,
                        j,
                        k,
                        di as i64,
                        dj as i64,
                        dk as i64,
                    )
                    &&& indices@[di]@[dj]@[dk] < POINT_COUNT
                },
    {
        [
            [
                [self.corner(i, j, k, 0, 0, 0), self.corner(i, j, k, 0, 0, 1)],
                [self.corner(i, j, k, 0, 1, 0), self.corner(i, j, k, 0, 1, 1)],
            ],
            [
                [self.corner(i, j, k, 1, 0, 0), self.corner(i, j, k, 1, 0, 1)],
                [self.corner(i, j, k, 1, 1, 0), self.corner(i, j, k, 1, 1, 1)],
            ],
        ]
    }

    /// The index that the lattice point `(i, j, k)` itself hashes to.
    pub fn cell(&self, i: i64, j: i64, k: i64) -> (index: usize)
        requires
            self.wf(),
        ensures
            index == self.index_at(i, j, k, 0, 0, 0),
            index < POINT_COUNT,
    {
        self.corner(i, j, k, 0, 0, 0)
    }
}

} // verus!
