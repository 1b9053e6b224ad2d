//! Ring coordinates, pattern grids and the transform that places a blueprint.
//!
//! A grid is viewed as a sequence of rows: the row is picked by the outer-ring
//! index, the cell inside it by the inner-ring index.

use std::ops::Neg;
use vstd::arithmetic::div_mod::lemma_fundamental_div_mod_converse;
use vstd::prelude::*;

verus! {

/// Inside `[0, 2n)` a remainder is the number itself or the number less `n`.
pub proof fn lemma_wrap_up(x: int, n: int)
    requires
        n > 0,
        0 <= x < 2 * n,
    ensures
        x % n == if x < n { x } else { x - n },
{
    if x < n {
        lemma_fundamental_div_mod_converse(x, n, 0, x);
    } else {
        lemma_fundamental_div_mod_converse(x, n, 1, x - n);
    }
}

/// Inside `(-n, n)` a remainder is the number itself or the number plus `n`.
pub proof fn lemma_wrap_down(x: int, n: int)
    requires
        n > 0,
        -n < x < n,
    ensures
        x % n == if x >= 0 { x } else { x + n },
{
    if x >= 0 {
        lemma_fundamental_div_mod_converse(x, n, 0, x);
    } else {
        lemma_fundamental_div_mod_converse(x, n, -1, x + n);
    }
}

/// An index on a circular track of `N` sectors, always below `N`.
#[derive(Clone, Copy, Debug)]
pub struct Coord<const N: usize> {
    inner: usize,
}

impl<const N: usize> View for Coord<N> {
    type V = int;

    closed spec fn view(&self) -> int {
        self.inner as int
    }
}

impl<const N: usize> Coord<N> {
    /// Every coordinate lies on its ring.
    #[verifier::type_invariant]
    pub open spec fn on_ring(self) -> bool {
        0 <= self@ < N
    }

    /// The coordinate of sector `k`; meaningful for `0 <= k < N`.
    pub closed spec fn at(k: int) -> Self {
        Coord { inner: k as usize }
    }

    /// The sector that `at` names is the sector that the view reads back.
    pub proof fn lemma_at_view(k: int)
        requires
            0 <= k < N,
        ensures
            Self::at(k)@ == k,
    {
    }

    /// A coordinate is named by its own sector.
    pub proof fn lemma_view_at(self)
        requires
            self.on_ring(),
        ensures
            Self::at(self@) == self,
    {
    }

    /// The sum of two coordinates: their sectors added, reduced modulo `N`.
    pub open spec fn plus(self, rhs: Self) -> Self {
        Self::at((self@ + rhs@) % N as int)
    }

    /// The additive inverse: `N` less the sector, reduced modulo `N`.
    pub open spec fn negated(self) -> Self {
        Self::at((N - self@) % N as int)
    }

    /// The difference of two coordinates: the first plus the inverse of the second.
    pub open spec fn minus(self, rhs: Self) -> Self {
        self.plus(rhs.negated())
    }

    /// The coordinate that `n` steps from sector zero lead to.
    pub fn new(n: usize) -> (c: Self)
        requires
            N > 0,
        ensures
            c == Self::at(n as int % N as int),
            c@ == n as int % N as int,
            c.on_ring(),
    {
        Self { inner: n % N }
    }

    /// The additive identity.
    pub fn zero() -> (c: Self)
        requires
            N > 0,
        ensures
            c == Self::at(0),
            c@ == 0,
    {
        Self { inner: 0 }
    }

    /// One step forward along the ring; on a ring of one sector that is no step.
    pub fn one() -> (c: Self)
        requires
            N > 0,
        ensures
            c == Self::at(1int % N as int),
            c@ == 1int % N as int,
            c.on_ring(),
    {
        Self::new(1)
    }

    /// The sector of the coordinate.
    pub fn inner(self) -> (k: usize)
        ensures
            k == self@,
            k < N,
    {
        proof {
            use_type_invariant(self);
        }
        self.inner
    }

    /// All `N` coordinates, in ring order.
    pub fn iter_all() -> (all: Vec<Self>)
        ensures
            all@.len() == N,
            forall|k: int| 0 <= k < N ==> #[trigger] all@[k] == Self::at(k),
            forall|k: int| 0 <= k < N ==> (#[trigger] all@[k])@ == k,
    {
        let mut all: Vec<Self> = Vec::new();
        let mut k: usize = 0;
        while k < N
            invariant
                k <= N,
                all@.len() == k,
                forall|j: int| 0 <= j < k ==> #[trigger] all@[j] == Self::at(j),
                forall|j: int| 0 <= j < k ==> (#[trigger] all@[j])@ == j,
            decreases N - k,
        {
            all.push(Self { inner: k });
            k += 1;
        }
        all
    }
}

impl<const N: usize> PartialEq for Coord<N> {
    fn eq(&self, other: &Self) -> (same: bool)
        ensures
            same == (self@ == other@),
    {
        self.inner == other.inner
    }
}

impl<const N: usize> vstd::std_specs::cmp::PartialEqSpecImpl for Coord<N> {
    open spec fn obeys_eq_spec() -> bool {
        true
    }

    open spec fn eq_spec(&self, other: &Self) -> bool {
        self@ == other@
    }
}

impl<const N: usize> Eq for Coord<N> {}

impl<const N: usize> vstd::std_specs::ops::AddSpecImpl for Coord<N> {
    open spec fn obeys_add_spec() -> bool {
        true
    }

    open spec fn add_req(self, rhs: Self) -> bool {
        true
    }

    open spec fn add_spec(self, rhs: Self) -> Self {
        self.plus(rhs)
    }
}

impl<const N: usize> std::ops::Add for Coord<N> {
    type Output = Self;

    fn add(self, rhs: Self) -> (sum: Self)
        ensures
            sum == self.plus(rhs),
    {
        proof {
            use_type_invariant(self);
            use_type_invariant(rhs);
            lemma_wrap_up(self@ + rhs@, N as int);
        }
        let gap: usize = N - rhs.inner;
        if self.inner >= gap {
            Self { inner: self.inner - gap }
        } else {
            Self { inner: self.inner + rhs.inner }
        }
    }
}

impl<const N: usize> vstd::std_specs::ops::NegSpecImpl for Coord<N> {
    open spec fn obeys_neg_spec() -> bool {
        true
    }

    open spec fn neg_req(self) -> bool {
        true
    }

    open spec fn neg_spec(self) -> Self {
        self.negated()
    }
}

impl<const N: usize> std::ops::Neg for Coord<N> {
    type Output = Self;

    fn neg(self) -> (opposite: Self)
        ensures
            opposite == self.negated(),
    {
        proof {
            use_type_invariant(self);
        }
        Self { inner: (N - self.inner) % N }
    }
}

impl<const N: usize> vstd::std_specs::ops::SubSpecImpl for Coord<N> {
    open spec fn obeys_sub_spec() -> bool {
        true
    }

    open spec fn sub_req(self, rhs: Self) -> bool {
        true
    }

    open spec fn sub_spec(self, rhs: Self) -> Self {
        self.minus(rhs)
    }
}

impl<const N: usize> std::ops::Sub for Coord<N> {
    type Output = Self;

    fn sub(self, rhs: Self) -> (difference: Self)
        ensures
            difference == self.minus(rhs),
    {
        proof {
            use_type_invariant(self);
            use_type_invariant(rhs);
            Self::lemma_neg_on_ring(rhs);
        }
        self + rhs.neg()
    }
}

impl<const N: usize> Coord<N> {
    /// A sum stays on the ring, at the remainder of the sectors' sum.
    pub proof fn lemma_add_on_ring(a: Self, b: Self)
        requires
            a.on_ring(),
            b.on_ring(),
        ensures
            a.plus(b).on_ring(),
            a.plus(b)@ == (a@ + b@) % N as int,
    {
        lemma_wrap_up(a@ + b@, N as int);
        Self::lemma_at_view((a@ + b@) % N as int);
    }

    /// A negation stays on the ring, at the remainder of `N` less the sector.
    pub proof fn lemma_neg_on_ring(a: Self)
        requires
            a.on_ring(),
        ensures
            a.negated().on_ring(),
            a.negated()@ == (N - a@) % N as int,
            a.negated()@ == if a@ == 0 { 0 } else { N - a@ },
    {
        lemma_wrap_up(N - a@, N as int);
        Self::lemma_at_view((N - a@) % N as int);
    }

    /// Addition does not depend on the order of its operands.
    pub proof fn law_add_commutative(a: Self, b: Self)
        requires
            a.on_ring(),
            b.on_ring(),
        ensures
            a.plus(b) == b.plus(a),
    {
    }

    /// Addition does not depend on how three operands are grouped.
    pub proof fn law_add_associative(a: Self, b: Self, c: Self)
        requires
            a.on_ring(),
            b.on_ring(),
            c.on_ring(),
        ensures
            a.plus(b).plus(c) == a.plus(b.plus(c)),
    {
        let n = N as int;
        Self::lemma_add_on_ring(a, b);
        Self::lemma_add_on_ring(b, c);
        lemma_wrap_up(a@ + b@, n);
        lemma_wrap_up(b@ + c@, n);
        lemma_wrap_up((a@ + b@) % n + c@, n);
        lemma_wrap_up(a@ + (b@ + c@) % n, n);
    }

    /// Sector zero is the identity of addition, on either side.
    pub proof fn law_zero_identity(c: Self)
        requires
            c.on_ring(),
        ensures
            Self::at(0).plus(c) == c,
            c.plus(Self::at(0)) == c,
    {
        Self::lemma_at_view(0);
        lemma_wrap_up(c@, N as int);
        Self::lemma_view_at(c);
    }

    /// A coordinate and its negation add up to sector zero.
    pub proof fn law_neg_inverse(c: Self)
        requires
            c.on_ring(),
        ensures
            c.plus(c.negated()) == Self::at(0),
            c.negated().plus(c) == Self::at(0),
    {
        Self::lemma_neg_on_ring(c);
        lemma_wrap_up(c@ + c.negated()@, N as int);
    }
}

/// The rows of a square table of cells, outer index first.
pub open spec fn grid_of<const N: usize>(cells: [[bool; N]; N]) -> Seq<Seq<bool>> {
    Seq::new(N as nat, |o: int| cells[o]@)
}

/// A grid of `n` rows of `n` cells each.
pub open spec fn square(grid: Seq<Seq<bool>>, n: int) -> bool {
    &&& grid.len() == n
    &&& forall|o: int| 0 <= o < n ==> (#[trigger] grid[o]).len() == n
}

/// The grid of `n` by `n` cells that are all clear.
pub open spec fn blank(n: int) -> Seq<Seq<bool>> {
    Seq::new(n as nat, |o: int| Seq::new(n as nat, |i: int| false))
}

/// The local index that a transform reads for the offset `(i, o)` from its
/// origin: `(i, o)` itself, the two rings swapped, both offsets negated on the
/// ring, or both at once.
pub open spec fn local_index(i: int, o: int, transpose: bool, mirror: bool, n: int) -> (int, int) {
    if !transpose && !mirror {
        (i, o)
    } else if transpose && !mirror {
        (o, i)
    } else if !transpose && mirror {
        ((n - i) % n, (n - o) % n)
    } else {
        ((n - o) % n, (n - i) % n)
    }
}

/// A local index stays inside the grid.
pub proof fn lemma_local_index_in_grid(i: int, o: int, transpose: bool, mirror: bool, n: int)
    requires
        0 <= i < n,
        0 <= o < n,
    ensures
        0 <= local_index(i, o, transpose, mirror, n).0 < n,
        0 <= local_index(i, o, transpose, mirror, n).1 < n,
{
    lemma_wrap_up(n - i, n);
    lemma_wrap_up(n - o, n);
}

/// The grid that a blueprint gives once it is placed: the cell at the absolute
/// position `(a, b)` lies at the offset `((a - origin_i) mod n, (b - origin_o) mod n)`
/// from the origin and holds the blueprint's cell at that offset's local index.
pub open spec fn placed(
    blueprint: Seq<Seq<bool>>,
    n: int,
    origin_i: int,
    origin_o: int,
    transpose: bool,
    mirror: bool,
) -> Seq<Seq<bool>> {
    Seq::new(
        n as nat,
        |b: int|
            Seq::new(
                n as nat,
                |a: int|
                    {
                        let local = local_index(
                            (a - origin_i) % n,
                            (b - origin_o) % n,
                            transpose,
                            mirror,
                            n,
                        );
                        blueprint[local.1][local.0]
                    },
            ),
    )
}

/// Shifting by an origin and back again returns to the offset one started from.
pub proof fn lemma_shift_round_trip(origin: int, k: int, n: int)
    requires
        0 <= origin < n,
        0 <= k < n,
    ensures
        0 <= (origin + k) % n < n,
        ((origin + k) % n - origin) % n == k,
{
    lemma_wrap_up(origin + k, n);
    lemma_wrap_down((origin + k) % n - origin, n);
}

/// Every absolute index is the shift of exactly one offset.
pub proof fn lemma_shift_reaches(origin: int, a: int, n: int)
    requires
        0 <= origin < n,
        0 <= a < n,
    ensures
        0 <= (a - origin) % n < n,
        (origin + (a - origin) % n) % n == a,
{
    lemma_wrap_down(a - origin, n);
    lemma_wrap_up(origin + (a - origin) % n, n);
}

/// How a blueprint is laid onto the rings: moved to an origin, and optionally
/// with its rings swapped and reflected through the origin.
#[derive(Clone, Copy, Debug)]
pub struct Transform<const N: usize> {
    pub origin: (Coord<N>, Coord<N>),
    pub transpose: bool,
    pub mirror: bool,
}

impl<const N: usize> Transform<N> {
    /// The transform that leaves a blueprint where it was drawn: no shift, no
    /// swap of the rings, no reflection.
    pub open spec fn plain() -> Self {
        Transform { origin: (Coord::at(0), Coord::at(0)), transpose: false, mirror: false }
    }

    /// The transform that leaves a blueprint where it was drawn.
    pub fn identity() -> (t: Self)
        requires
            N > 0,
        ensures
            t == Self::plain(),
            t.origin.0@ == 0,
            t.origin.1@ == 0,
    {
        Transform { origin: (Coord::zero(), Coord::zero()), transpose: false, mirror: false }
    }
}

/// A pattern as it was drawn, relative to an origin that is chosen later.
#[derive(Clone, Copy, Debug)]
pub struct PatternBlueprint<const N: usize> {
    inner: [[bool; N]; N],
}

/// A pattern in absolute ring coordinates.
#[derive(Clone, Copy, Debug)]
pub struct Pattern<const N: usize> {
    inner: [[bool; N]; N],
}

impl<const N: usize> View for PatternBlueprint<N> {
    type V = Seq<Seq<bool>>;

    closed spec fn view(&self) -> Seq<Seq<bool>> {
        grid_of(self.inner)
    }
}

impl<const N: usize> View for Pattern<N> {
    type V = Seq<Seq<bool>>;

    closed spec fn view(&self) -> Seq<Seq<bool>> {
        grid_of(self.inner)
    }
}

impl<const N: usize> PatternBlueprint<N> {
    /// The cell at inner index `i` and outer index `o`.
    pub open spec fn cell(&self, i: int, o: int) -> bool {
        self@[o][i]
    }

    /// A blueprint's grid is `N` by `N`.
    pub proof fn lemma_square(&self)
        ensures
            square(self@, N as int),
    {
    }

    /// The blueprint with the given cells, outer index first.
    pub fn new(inner: [[bool; N]; N]) -> (blueprint: Self)
        ensures
            blueprint@ == grid_of(inner),
    {
        Self { inner }
    }

    /// Whether the cell that the offset `(i, o)` from the origin lands on holds
    /// what the blueprint holds at that offset's local index.
    pub open spec fn lands(&self, target: Seq<Seq<bool>>, transform: Transform<N>, i: int, o: int) -> bool {
        let local = local_index(i, o, transform.transpose, transform.mirror, N as int);
        target[(transform.origin.1@ + o) % N as int][(transform.origin.0@ + i) % N as int] == self.cell(
            local.0,
            local.1,
        )
    }

    /// The grid that the blueprint gives under `transform`.
    pub open spec fn placed_by(&self, transform: Transform<N>) -> Seq<Seq<bool>> {
        placed(
            self@,
            N as int,
            transform.origin.0@,
            transform.origin.1@,
            transform.transpose,
            transform.mirror,
        )
    }

    /// Places the blueprint on the rings: the cell at each offset from the
    /// origin of `transform` takes what the blueprint holds at the local
    /// index that the symmetries of `transform` give for that offset.
    pub fn construct(&self, transform: Transform<N>) -> (pattern: Pattern<N>)
        ensures
            pattern@ == self.placed_by(transform),
            forall|i: int, o: int|
                0 <= i < N && 0 <= o < N ==> #[trigger] self.lands(pattern@, transform, i, o),
    {
        let (origin_i, origin_o) = transform.origin;
        proof {
            use_type_invariant(origin_i);
            use_type_invariant(origin_o);
        }
        let ghost n = N as int;
        let mut inner = [[false; N]; N];
        let mut o: usize = 0;
        while o < N
            invariant
                o <= N,
                0 < N,
                n == N,
                origin_i.on_ring(),
                origin_o.on_ring(),
                transform.origin == (origin_i, origin_o),
                forall|i2: int, o2: int|
                    0 <= o2 < o && 0 <= i2 < N ==> #[trigger] self.lands(grid_of(inner), transform, i2, o2),
            decreases N - o,
        {
            let mut i: usize = 0;
            while i < N
                invariant
                    i <= N,
                    o < N,
                    n == N,
                    origin_i.on_ring(),
                    origin_o.on_ring(),
                    transform.origin == (origin_i, origin_o),
                    forall|i2: int, o2: int|
                        (0 <= o2 < o && 0 <= i2 < N) || (o2 == o && 0 <= i2 < i)
                            ==> #[trigger] self.lands(grid_of(inner), transform, i2, o2),
                decreases N - i,
            {
                let step_i = Coord::<N>::new(i);
                let step_o = Coord::<N>::new(o);
                proof {
                    lemma_wrap_up(i as int, n);
                    lemma_wrap_up(o as int, n);
                    Coord::<N>::lemma_neg_on_ring(step_i);
                    Coord::<N>::lemma_neg_on_ring(step_o);
                    Coord::<N>::lemma_add_on_ring(origin_i, step_i);
                    Coord::<N>::lemma_add_on_ring(origin_o, step_o);
                }
                let local = if !transform.transpose && !transform.mirror {
                    (step_i, step_o)
                } else if transform.transpose && !transform.mirror {
                    (step_o, step_i)
                } else if !transform.transpose && transform.mirror {
                    (step_i.neg(), step_o.neg())
                } else {
                    (step_o.neg(), step_i.neg())
                };
                let value = self.inner[local.1.inner()][local.0.inner()];
                let row = (origin_o + step_o).inner();
                let column = (origin_i + step_i).inner();
                let ghost before = inner;
                inner[row][column] = value;
                proof {
                    assert forall|i2: int, o2: int|
                        (0 <= o2 < o && 0 <= i2 < N) || (o2 == o && 0 <= i2 < i + 1)
                        implies #[trigger] self.lands(grid_of(inner), transform, i2, o2) by {
                        lemma_shift_round_trip(origin_o@, o2, n);
                        lemma_shift_round_trip(origin_o@, o as int, n);
                        lemma_shift_round_trip(origin_i@, i2, n);
                        lemma_shift_round_trip(origin_i@, i as int, n);
                        lemma_local_index_in_grid(i2, o2, transform.transpose, transform.mirror, n);
                        if o2 != o || i2 != i {
                            assert(self.lands(grid_of(before), transform, i2, o2));
                        }
                    }
                }
                i += 1;
            }
            o += 1;
        }
        let pattern = Pattern { inner };
        proof {
            let target = self.placed_by(transform);
            assert forall|b: int| 0 <= b < n implies #[trigger] pattern@[b] == target[b] by {
                assert forall|a: int| 0 <= a < n implies pattern@[b][a] == target[b][a] by {
                    lemma_shift_reaches(origin_i@, a, n);
                    lemma_shift_reaches(origin_o@, b, n);
                    let i2 = (a - origin_i@) % n;
                    let o2 = (b - origin_o@) % n;
                    lemma_local_index_in_grid(i2, o2, transform.transpose, transform.mirror, n);
                    assert(self.lands(pattern@, transform, i2, o2));
                }
                assert(pattern@[b] =~= target[b]);
            }
            assert(pattern@ =~= target);
        }
        pattern
    }
}

/// A row whose first `k` cells are those of `cells`, the others clear.
spec fn row_with<const N: usize>(cells: Seq<bool>, k: nat) -> [bool; N]
    decreases k,
{
    if k == 0 {
        vstd::array::spec_array_fill_for_copy_type::<bool, N>(false)
    } else {
        vstd::array::spec_array_update(row_with::<N>(cells, (k - 1) as nat), k - 1, cells[k - 1])
    }
}

proof fn lemma_row_with<const N: usize>(cells: Seq<bool>, k: nat, i: int)
    requires
        0 <= i < k <= N,
    ensures
        row_with::<N>(cells, k)[i] == cells[i],
    decreases k,
{
    if i < k - 1 {
        lemma_row_with::<N>(cells, (k - 1) as nat, i);
    }
}

/// A table whose first `k` rows are those of `rows`, the others clear.
spec fn table_with<const N: usize>(rows: Seq<Seq<bool>>, k: nat) -> [[bool; N]; N]
    decreases k,
{
    if k == 0 {
        vstd::array::spec_array_fill_for_copy_type::<[bool; N], N>(row_with::<N>(Seq::empty(), 0))
    } else {
        vstd::array::spec_array_update(
            table_with::<N>(rows, (k - 1) as nat),
            k - 1,
            row_with::<N>(rows[k - 1], N as nat),
        )
    }
}

proof fn lemma_table_with<const N: usize>(rows: Seq<Seq<bool>>, k: nat, o: int, i: int)
    requires
        0 <= o < k <= N,
        0 <= i < N,
    ensures
        table_with::<N>(rows, k)[o][i] == rows[o][i],
    decreases k,
{
    if o < k - 1 {
        lemma_table_with::<N>(rows, (k - 1) as nat, o, i);
    } else {
        lemma_row_with::<N>(rows[o], N as nat, i);
    }
}

impl<const N: usize> Pattern<N> {
    /// The pattern whose grid is `grid`; meaningful for a grid of `N` by `N`.
    pub closed spec fn of(grid: Seq<Seq<bool>>) -> Self {
        Pattern { inner: table_with::<N>(grid, N as nat) }
    }

    /// The pattern made of a square grid shows that grid.
    pub proof fn lemma_of_grid(grid: Seq<Seq<bool>>)
        requires
            square(grid, N as int),
        ensures
            Self::of(grid)@ == grid,
    {
        let shown = Self::of(grid)@;
        assert forall|o: int| 0 <= o < N implies #[trigger] shown[o] == grid[o] by {
            assert forall|i: int| 0 <= i < N implies shown[o][i] == grid[o][i] by {
                lemma_table_with::<N>(grid, N as nat, o, i);
            }
            assert(shown[o] =~= grid[o]);
        }
        assert(shown =~= grid);
    }

    /// A pattern is the pattern made of its own grid.
    pub proof fn lemma_grid_of(self)
        ensures
            Self::of(self@) == self,
    {
        self.lemma_square();
        Self::lemma_of_grid(self@);
        Self::lemma_same_grid(Self::of(self@), self);
    }

    /// The cell at inner index `i` and outer index `o`.
    pub open spec fn cell(&self, i: int, o: int) -> bool {
        self@[o][i]
    }

    /// A pattern's grid is `N` by `N`.
    pub proof fn lemma_square(&self)
        ensures
            square(self@, N as int),
    {
    }

    /// Two patterns with the same grid are the same pattern.
    pub proof fn lemma_same_grid(a: Self, b: Self)
        requires
            a@ == b@,
        ensures
            a == b,
    {
        assert forall|o: int| 0 <= o < N implies a.inner[o] == b.inner[o] by {
            assert(a@[o] == b@[o]);
            assert(a.inner[o]@ == b.inner[o]@);
            assert(a.inner[o] =~= b.inner[o]);
        }
        assert(a.inner =~= b.inner);
    }

    /// The pattern with the given cells, outer index first.
    pub fn new(inner: [[bool; N]; N]) -> (pattern: Self)
        ensures
            pattern@ == grid_of(inner),
    {
        Self { inner }
    }

    /// The pattern with no cell set.
    pub fn empty() -> (pattern: Self)
        ensures
            pattern@ == blank(N as int),
    {
        let pattern = Self { inner: [[false; N]; N] };
        proof {
            assert forall|o: int| 0 <= o < N implies #[trigger] pattern@[o] == blank(N as int)[o] by {
                assert(pattern@[o] =~= blank(N as int)[o]);
            }
            assert(pattern@ =~= blank(N as int));
        }
        pattern
    }
}

impl<const N: usize> vstd::std_specs::core::IndexSpecImpl<(Coord<N>, Coord<N>)> for PatternBlueprint<N> {
    open spec fn index_req(&self, index: &(Coord<N>, Coord<N>)) -> bool {
        true
    }
}

impl<const N: usize> std::ops::Index<(Coord<N>, Coord<N>)> for PatternBlueprint<N> {
    type Output = bool;

    fn index(&self, index: (Coord<N>, Coord<N>)) -> (value: &bool)
        ensures
            *value == self.cell(index.0@, index.1@),
    {
        &self.inner[index.1.inner()][index.0.inner()]
    }
}

impl<const N: usize> vstd::std_specs::core::IndexSpecImpl<(Coord<N>, Coord<N>)> for Pattern<N> {
    open spec fn index_req(&self, index: &(Coord<N>, Coord<N>)) -> bool {
        true
    }
}

impl<const N: usize> std::ops::Index<(Coord<N>, Coord<N>)> for Pattern<N> {
    type Output = bool;

    fn index(&self, index: (Coord<N>, Coord<N>)) -> (value: &bool)
        ensures
            *value == self.cell(index.0@, index.1@),
    {
        &self.inner[index.1.inner()][index.0.inner()]
    }
}

/// Placing a blueprint at the origin `(0, 0)`, neither transposed nor
/// mirrored, gives back the grid that the blueprint was drawn with.
pub proof fn law_identity_keeps_grid<const N: usize>(blueprint: PatternBlueprint<N>)
    ensures
        blueprint.placed_by(Transform::plain()) == blueprint@,
{
    let n = N as int;
    let target = blueprint.placed_by(Transform::plain());
    blueprint.lemma_square();
    assert(Coord::<N>::at(0)@ == 0);
    assert forall|b: int| 0 <= b < n implies #[trigger] target[b] == blueprint@[b] by {
        assert forall|a: int| 0 <= a < n implies target[b][a] == blueprint@[b][a] by {
            lemma_wrap_up(a, n);
            lemma_wrap_up(b, n);
        }
        assert(target[b] =~= blueprint@[b]);
    }
    assert(target =~= blueprint@);
}

/// Wherever an untransposed, unmirrored blueprint is placed, the cell at the
/// origin holds what the blueprint holds at its local index `(0, 0)`.
pub proof fn law_origin_holds_local_zero<const N: usize>(
    blueprint: PatternBlueprint<N>,
    origin: (Coord<N>, Coord<N>),
)
    requires
        origin.0.on_ring(),
        origin.1.on_ring(),
    ensures
        blueprint.placed_by(Transform { origin, transpose: false, mirror: false })[origin.1@][origin.0@]
            == blueprint.cell(0, 0),
{
    lemma_wrap_up(0, N as int);
}

} // verus!
