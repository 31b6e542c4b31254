//! In-memory layout of the per-route demand and distance tables.
use vstd::prelude::*;

verus! {

/// Number of airports in the game database.
pub const AIRPORT_COUNT: usize = 3907;

/// Number of unordered airport pairs, `n * (n - 1) / 2`.
pub const ROUTE_COUNT: usize = AIRPORT_COUNT * (AIRPORT_COUNT - 1) / 2;

/// Offset of the first entry of row `i` in the flattened strictly upper
/// triangular matrix of side `n`: row `k` holds `n - 1 - k` entries.
pub open spec fn row_start(n: int, i: nat) -> int
    decreases i,
{
    if i == 0 {
        0
    } else {
        row_start(n, (i - 1) as nat) + (n - i)
    }
}

/// Position of the pair `(i, j)`, `i < j`, in the flattened matrix of side `n`.
pub open spec fn pair_index(n: int, i: int, j: int) -> int {
    row_start(n, i as nat) + (j - i - 1)
}

/// Number of entries of the strictly upper triangular matrix of side `n`.
pub open spec fn pair_count(n: int) -> int {
    n * (n - 1) / 2
}

pub proof fn lemma_row_start_closed_form(n: int, i: nat)
    ensures
        2 * row_start(n, i) == i * (2 * n - i - 1),
    decreases i,
{
    if i > 0 {
        let k: int = i - 1;
        lemma_row_start_closed_form(n, k as nat);
        assert(k * (2 * n - k - 1) + 2 * (n - i) == i * (2 * n - i - 1)) by (nonlinear_arith)
            requires
                k == i - 1,
        ;
    } else {
        assert(i * (2 * n - i - 1) == 0) by (nonlinear_arith)
            requires
                i == 0,
        ;
    }
}


pub proof fn lemma_row_start_monotone(n: int, a: nat, b: nat)
    requires
        a <= b <= n,
    ensures
        row_start(n, a) <= row_start(n, b),
    decreases b - a,
{
    if a < b {
        lemma_row_start_monotone(n, a, (b - 1) as nat);
    }
}

/// Every pair `i < j < n` lands inside row `i` of the flattened layout,
/// and hence inside `0 .. n * (n - 1) / 2`.
pub proof fn lemma_pair_index_bounds(n: int, i: int, j: int)
    requires
        0 <= i < j < n,
    ensures
        row_start(n, i as nat) <= pair_index(n, i, j) < row_start(n, (i + 1) as nat),
        0 <= pair_index(n, i, j) < pair_count(n),
        pair_count(n) == row_start(n, (n - 1) as nat),
{
    lemma_row_start_monotone(n, 0, i as nat);
    lemma_row_start_monotone(n, (i + 1) as nat, (n - 1) as nat);
    lemma_row_start_closed_form(n, (n - 1) as nat);
    assert((n - 1) * (2 * n - (n - 1) - 1) == n * (n - 1)) by (nonlinear_arith);
}

/// Two pairs share a position of the flattened layout only if they are equal.
pub proof fn lemma_pair_index_injective(n: int, i1: int, j1: int, i2: int, j2: int)
    requires
        0 <= i1 < j1 < n,
        0 <= i2 < j2 < n,
        pair_index(n, i1, j1) == pair_index(n, i2, j2),
    ensures
        i1 == i2,
        j1 == j2,
{
    lemma_pair_index_bounds(n, i1, j1);
    lemma_pair_index_bounds(n, i2, j2);
    if i1 < i2 {
        lemma_row_start_monotone(n, (i1 + 1) as nat, i2 as nat);
    } else if i2 < i1 {
        lemma_row_start_monotone(n, (i2 + 1) as nat, i1 as nat);
    }
}

proof fn lemma_pair_in_rows_from(n: int, k: int, i: int) -> (p: (int, int))
    requires
        0 <= i < n - 1,
        row_start(n, i as nat) <= k < pair_count(n),
        pair_count(n) == row_start(n, (n - 1) as nat),
    ensures
        0 <= p.0 < p.1 < n,
        pair_index(n, p.0, p.1) == k,
    decreases n - i,
{
    if k < row_start(n, (i + 1) as nat) {
        (i, k - row_start(n, i as nat) + i + 1)
    } else {
        if i + 1 >= n - 1 {
            assert(i + 1 == n - 1);
            assert(false);
        }
        lemma_pair_in_rows_from(n, k, i + 1)
    }
}

/// Every position of the flattened layout holds some pair: together with
/// [lemma_pair_index_bounds] and [lemma_pair_index_injective], the layout is
/// a one-to-one correspondence between the pairs `i < j < n` and the
/// positions `0 .. n * (n - 1) / 2`.
pub proof fn lemma_pair_index_onto(n: int, k: int)
    requires
        0 <= n,
        0 <= k < pair_count(n),
    ensures
        exists|i: int, j: int| 0 <= i < j < n && pair_index(n, i, j) == k,
{
    if n < 2 {
        assert(n * (n - 1) == 0) by (nonlinear_arith)
            requires
                0 <= n < 2,
        ;
        assert(pair_count(n) == 0);
    }
    lemma_pair_index_bounds(n, 0, 1);
    let p = lemma_pair_in_rows_from(n, k, 0);
    assert(0 <= p.0 < p.1 < n && pair_index(n, p.0, p.1) == k);
}

/// The closed form of [pair_index]: `i * (2n - i - 1) / 2 + (j - i - 1)`.
pub open spec fn index_formula(n: int, i: int, j: int) -> int {
    i * (2 * n - i - 1) / 2 + (j - i - 1)
}

/// The arithmetic of [StrictlyUpperTriangularMatrix::index] stays inside `usize`.
pub open spec fn index_defined(n: int, i: int, j: int) -> bool {
    &&& 2 * n <= usize::MAX
    &&& 0 <= i
    &&& i + 1 <= 2 * n
    &&& i * (2 * n - i - 1) <= usize::MAX
    &&& index_formula(n, i, j) <= usize::MAX
}

pub proof fn lemma_index_formula(n: int, i: int, j: int)
    requires
        0 <= i,
    ensures
        index_formula(n, i, j) == pair_index(n, i, j),
{
    lemma_row_start_closed_form(n, i as nat);
}

/// A flattened version of the strictly upper triangular matrix of side `N`,
/// walked row by row. For four airports the positions are
///
/// ```txt
///     0  1  2  3  <-- origin index
///    ___________
/// 0 | .  0  1  2
/// 1 | 0  .  3  4
/// 2 | 1  3  .  5
/// 3 | 2  4  5  .
/// ```
#[derive(Debug)]
pub struct StrictlyUpperTriangularMatrix<const N: usize> {
    curr: usize,
    /// Row number
    i: usize,
    /// Column number
    j: usize,
}

impl<const N: usize> StrictlyUpperTriangularMatrix<N> {
    #[verifier::type_invariant]
    spec fn wf(self) -> bool {
        ||| self.curr == 0 && self.i == 0 && self.j == 0
        ||| self.i < self.j < N && self.curr == pair_index(N as int, self.i as int, self.j as int) + 1
    }

    /// How many pairs the walk has produced so far.
    pub closed spec fn position(self) -> int {
        self.curr as int
    }

    /// The side is at least one and `N * (N - 1)` fits in `usize`.
    pub open spec fn well_sized() -> bool {
        1 <= N && N * (N - 1) <= usize::MAX
    }

    /// Compute the index of the flattened [Vec] representation,
    /// given the row and column number; the row comes before the column.
    pub fn index(ij: (usize, usize)) -> (r: usize)
        requires
            ij.0 < ij.1,
            index_defined(N as int, ij.0 as int, ij.1 as int),
        ensures
            r == index_formula(N as int, ij.0 as int, ij.1 as int),
            r == pair_index(N as int, ij.0 as int, ij.1 as int),
    {
        let (i, j) = ij;
        proof {
            lemma_row_start_closed_form(N as int, i as nat);
        }
        i * (2 * N - i - 1) / 2 + (j - i - 1)
    }

    /// Produce the next pair `(i, j)` of the row-by-row walk, or `None` once
    /// all `N * (N - 1) / 2` pairs have been produced.
    pub fn next(&mut self) -> (r: Option<(usize, usize)>)
        ensures
            Self::well_sized() && old(self).position() < pair_count(N as int) ==> {
                &&& r matches Some(p)
                &&& p.0 < p.1 < N
                &&& pair_index(N as int, p.0 as int, p.1 as int) == old(self).position()
                &&& final(self).position() == old(self).position() + 1
            },
            !(Self::well_sized() && old(self).position() < pair_count(N as int)) ==> {
                &&& r is None
                &&& final(self).position() == old(self).position()
            },
    {
        proof {
            use_type_invariant(&*self);
        }
        if N == 0 {
            return None;
        }
        let product = match N.checked_mul(N - 1) {
            Some(p) => p,
            None => {
                return None;
            },
        };
        let curr_max = product / 2;
        if self.curr >= curr_max {
            return None;
        }
        let ghost (oi, oj) = (self.i as int, self.j as int);
        proof {
            assert(curr_max == pair_count(N as int));
            if self.curr == 0 {
                if oi < oj < N {
                    lemma_pair_index_bounds(N as int, oi, oj);
                }
                if N == 1 {
                    assert(N * (N - 1) == 0) by (nonlinear_arith)
                        requires
                            N == 1,
                    ;
                    assert(product == 0);
                }
                assert(N >= 2);
                assert(pair_index(N as int, 0, 1) == 0);
            } else {
                lemma_pair_index_bounds(N as int, oi, oj);
                if oj + 1 == N {
                    lemma_pair_index_bounds(N as int, 0, N - 1);
                    assert(row_start(N as int, (oi + 1) as nat) == row_start(N as int, oi as nat) + (N - (oi + 1)));
                    assert(self.curr == row_start(N as int, (oi + 1) as nat));
                    if oi + 1 >= N - 1 {
                        assert(oi + 1 == N - 1);
                        assert(false);
                    }
                    assert(pair_index(N as int, oi + 1, oi + 2) == row_start(N as int, (oi + 1) as nat));
                }
            }
        }
        let (ni, nj) = if self.j + 1 == N {
            (self.i + 1, self.i + 2)
        } else {
            (self.i, self.j + 1)
        };
        let next_curr = self.curr + 1;
        *self = StrictlyUpperTriangularMatrix { curr: next_curr, i: ni, j: nj };
        Some((ni, nj))
    }

    /// A walk in a valid state never goes past the last pair.
    proof fn lemma_position_bounded(self)
        requires
            self.wf(),
        ensures
            0 <= self.position() <= pair_count(N as int),
    {
        if self.curr != 0 {
            lemma_pair_index_bounds(N as int, self.i as int, self.j as int);
        } else {
            if N >= 1 {
                assert(0 <= N * (N - 1)) by (nonlinear_arith)
                    requires
                        N >= 1,
                ;
            } else {
                assert(N * (N - 1) == 0) by (nonlinear_arith)
                    requires
                        N == 0,
                ;
            }
        }
    }

    /// All pairs the walk still produces, in order: the pair produced `k`-th
    /// from here has index `position + k`, and the walk produces every pair
    /// up to the last one, after which it produces nothing.
    pub fn collect_pairs(self) -> (r: Vec<(usize, usize)>)
        ensures
            Self::well_sized() ==> r@.len() == pair_count(N as int) - self.position(),
            !Self::well_sized() ==> r@.len() == 0,
            forall|k: int|
                0 <= k < r@.len() ==> {
                    &&& (#[trigger] r@[k]).0 < r@[k].1 < N
                    &&& pair_index(N as int, r@[k].0 as int, r@[k].1 as int) == self.position() + k
                },
    {
        let ghost start = self.position();
        let mut walk = self;
        let mut out: Vec<(usize, usize)> = Vec::new();
        loop
            invariant
                walk.position() == start + out@.len(),
                forall|k: int|
                    0 <= k < out@.len() ==> {
                        &&& (#[trigger] out@[k]).0 < out@[k].1 < N
                        &&& pair_index(N as int, out@[k].0 as int, out@[k].1 as int) == start + k
                    },
                !Self::well_sized() ==> out@.len() == 0,
            ensures
                Self::well_sized() ==> walk.position() == pair_count(N as int),
                walk.position() == start + out@.len(),
                forall|k: int|
                    0 <= k < out@.len() ==> {
                        &&& (#[trigger] out@[k]).0 < out@[k].1 < N
                        &&& pair_index(N as int, out@[k].0 as int, out@[k].1 as int) == start + k
                    },
                !Self::well_sized() ==> out@.len() == 0,
            decreases pair_count(N as int) - walk.position(),
        {
            proof {
                use_type_invariant(&walk);
                walk.lemma_position_bounded();
            }
            match walk.next() {
                Some(p) => {
                    out.push(p);
                },
                None => {
                    proof {
                        use_type_invariant(&walk);
                        walk.lemma_position_bounded();
                    }
                    break;
                },
            }
        }
        out
    }
}

impl<const N: usize> Default for StrictlyUpperTriangularMatrix<N> {
    fn default() -> (r: Self)
        ensures
            r.position() == 0,
    {
        StrictlyUpperTriangularMatrix { curr: 0, i: 0, j: 0 }
    }
}

/// Every pair of airport indices has a well-defined slot below [ROUTE_COUNT].
pub proof fn lemma_airport_pair_defined(i: int, j: int)
    requires
        0 <= i < j < AIRPORT_COUNT,
    ensures
        index_defined(AIRPORT_COUNT as int, i, j),
        0 <= pair_index(AIRPORT_COUNT as int, i, j) < ROUTE_COUNT,
{
    let n = AIRPORT_COUNT as int;
    lemma_pair_index_bounds(n, i, j);
    lemma_row_start_closed_form(n, i as nat);
    lemma_row_start_closed_form(n, (n - 1) as nat);
    lemma_row_start_monotone(n, i as nat, (n - 1) as nat);
    lemma_index_formula(n, i, j);
    assert(pair_count(n) == ROUTE_COUNT);
}

/// Slot of the undirected route between airports `o` and `d`.
pub open spec fn route_slot(o: int, d: int) -> int {
    if o > d {
        pair_index(AIRPORT_COUNT as int, d, o)
    } else {
        pair_index(AIRPORT_COUNT as int, o, d)
    }
}

/// Looking up `(o, d)` neither underflows nor overflows nor leaves the table.
pub open spec fn route_slot_defined(o: int, d: int) -> bool {
    let (i, j) = if o > d { (d, o) } else { (o, d) };
    &&& o != d
    &&& index_defined(AIRPORT_COUNT as int, i, j)
    &&& route_slot(o, d) < ROUTE_COUNT
}

/// Routes are undirected: both directions share one slot, distinct routes
/// between valid airports never share a slot, and every slot lies inside the
/// table.
pub proof fn lemma_route_slot_undirected_injective(o1: int, d1: int, o2: int, d2: int)
    requires
        0 <= o1 < AIRPORT_COUNT,
        0 <= d1 < AIRPORT_COUNT,
        0 <= o2 < AIRPORT_COUNT,
        0 <= d2 < AIRPORT_COUNT,
        o1 != d1,
        o2 != d2,
    ensures
        route_slot(o1, d1) == route_slot(d1, o1),
        route_slot_defined(o1, d1),
        0 <= route_slot(o1, d1) < ROUTE_COUNT,
        route_slot(o1, d1) == route_slot(o2, d2) <==> (o1 == o2 && d1 == d2) || (o1 == d2
            && d1 == o2),
{
    let (i1, j1) = if o1 > d1 { (d1, o1) } else { (o1, d1) };
    let (i2, j2) = if o2 > d2 { (d2, o2) } else { (o2, d2) };
    lemma_airport_pair_defined(i1, j1);
    lemma_airport_pair_defined(i2, j2);
    if route_slot(o1, d1) == route_slot(o2, d2) {
        lemma_pair_index_injective(AIRPORT_COUNT as int, i1, j1, i2, j2);
    }
}

/// Slot of the route between two distinct airports whose slot lies in the
/// table; the same in both directions.
pub fn get_index(oidx: usize, didx: usize) -> (r: usize)
    requires
        route_slot_defined(oidx as int, didx as int),
    ensures
        r == route_slot(oidx as int, didx as int),
        r == route_slot(didx as int, oidx as int),
        r < ROUTE_COUNT,
{
    let (i, j) = if oidx > didx {
        (didx, oidx)
    } else {
        (oidx, didx)
    };
    StrictlyUpperTriangularMatrix::<AIRPORT_COUNT>::index((i, j))
}

/// Computes the index for two distinct airport indices below [AIRPORT_COUNT]:
/// the same slot as [get_index], in both directions.
pub fn get_index_unchecked(oidx: usize, didx: usize) -> (r: usize)
    requires
        oidx < AIRPORT_COUNT,
        didx < AIRPORT_COUNT,
        oidx != didx,
    ensures
        r == route_slot(oidx as int, didx as int),
        r == route_slot(didx as int, oidx as int),
        r < ROUTE_COUNT,
{
    let (i, j) = if oidx > didx {
        (didx, oidx)
    } else {
        (oidx, didx)
    };
    proof {
        lemma_airport_pair_defined(i as int, j as int);
        lemma_row_start_closed_form(AIRPORT_COUNT as int, i as nat);
    }
    i * (2 * AIRPORT_COUNT - i - 1) / 2 + (j - i - 1)
}

/// Errors while loading a serialised table.
#[derive(Debug, Clone, PartialEq)]
pub enum ParseError {
    ArchiveError(String),
    SerialiseError(String),
    InvalidDataLength { expected: usize, actual: usize },
}

/// Economy, business and first class demand of a route.
#[derive(Debug, Clone, Copy, PartialEq, Eq, Structural)]
pub struct PaxDemand {
    pub y: u16,
    pub j: u16,
    pub f: u16,
}

/// Pax demand of every route, one entry per slot.
#[derive(Debug)]
pub struct DemandMatrix(Vec<PaxDemand>);

impl View for DemandMatrix {
    type V = Seq<PaxDemand>;

    closed spec fn view(&self) -> Seq<PaxDemand> {
        self.0@
    }
}

impl DemandMatrix {
    #[verifier::type_invariant]
    spec fn wf(self) -> bool {
        self.0.len() == ROUTE_COUNT
    }

    /// Accept a decoded table if it holds exactly one entry per route.
    pub fn from_demands(demands: Vec<PaxDemand>) -> (r: Result<Self, ParseError>)
        ensures
            r is Ok <==> demands@.len() == ROUTE_COUNT,
            r matches Ok(m) ==> m@ == demands@,
            r matches Err(e) ==> e == (ParseError::InvalidDataLength {
                expected: ROUTE_COUNT,
                actual: demands@.len() as usize,
            }),
    {
        if demands.len() != ROUTE_COUNT {
            return Err(ParseError::InvalidDataLength { expected: ROUTE_COUNT, actual: demands.len() });
        }
        Ok(DemandMatrix(demands))
    }

    pub fn data(&self) -> (r: &Vec<PaxDemand>)
        ensures
            r@ == self@,
            r@.len() == ROUTE_COUNT,
    {
        proof {
            use_type_invariant(self);
        }
        &self.0
    }

    /// Demand of the undirected route `(oidx, didx)`, between two distinct
    /// airports.
    pub fn index(&self, od: (usize, usize)) -> (r: &PaxDemand)
        requires
            route_slot_defined(od.0 as int, od.1 as int),
        ensures
            *r == self@[route_slot(od.0 as int, od.1 as int)],
    {
        proof {
            use_type_invariant(self);
        }
        &self.0[get_index(od.0, od.1)]
    }

    /// Demand of the route between two distinct airport indices, both below
    /// [AIRPORT_COUNT].
    pub fn get_unchecked(&self, oidx: usize, didx: usize) -> (r: PaxDemand)
        requires
            oidx < AIRPORT_COUNT,
            didx < AIRPORT_COUNT,
            oidx != didx,
        ensures
            r == self@[route_slot(oidx as int, didx as int)],
    {
        proof {
            use_type_invariant(self);
        }
        self.0[get_index_unchecked(oidx, didx)]
    }
}

/// Direct distance of every route, one entry per slot. The distance type `D`
/// is supplied by the caller.
#[derive(Debug)]
pub struct DistanceMatrix<D>(Vec<D>);

impl<D> View for DistanceMatrix<D> {
    type V = Seq<D>;

    closed spec fn view(&self) -> Seq<D> {
        self.0@
    }
}

impl<D> DistanceMatrix<D> {
    #[verifier::type_invariant]
    spec fn wf(self) -> bool {
        self.0.len() == ROUTE_COUNT
    }
}

impl<D: Copy> DistanceMatrix<D> {
    /// Accept a decoded table if it holds exactly one entry per route.
    pub fn from_distances(distances: Vec<D>) -> (r: Result<Self, ParseError>)
        ensures
            r is Ok <==> distances@.len() == ROUTE_COUNT,
            r matches Ok(m) ==> m@ == distances@,
            r matches Err(e) ==> e == (ParseError::InvalidDataLength {
                expected: ROUTE_COUNT,
                actual: distances@.len() as usize,
            }),
    {
        if distances.len() != ROUTE_COUNT {
            return Err(
                ParseError::InvalidDataLength { expected: ROUTE_COUNT, actual: distances.len() },
            );
        }
        Ok(DistanceMatrix(distances))
    }

    /// Fill the table by walking every pair `i < j` of airports and measuring
    /// the distance between `aps[i]` and `aps[j]`.
    pub fn from_airports<A, F: Fn(&A, &A) -> D>(aps: &[A], distance: F) -> (r: Self)
        requires
            aps@.len() >= AIRPORT_COUNT,
            forall|i: int, j: int|
                0 <= i < j < AIRPORT_COUNT ==> call_requires(distance, (&aps@[i], &aps@[j])),
        ensures
            r@.len() == ROUTE_COUNT,
            forall|i: int, j: int|
                #![trigger route_slot(i, j)]
                0 <= i < j < AIRPORT_COUNT ==> call_ensures(
                    distance,
                    (&aps@[i], &aps@[j]),
                    r@[route_slot(i, j)],
                ),
    {
        let mut d: Vec<D> = Vec::new();
        let mut walk = StrictlyUpperTriangularMatrix::<AIRPORT_COUNT>::default();
        loop
            invariant
                aps@.len() >= AIRPORT_COUNT,
                forall|i: int, j: int|
                    0 <= i < j < AIRPORT_COUNT ==> call_requires(distance, (&aps@[i], &aps@[j])),
                walk.position() == d@.len(),
                d@.len() <= ROUTE_COUNT,
                forall|i: int, j: int|
                    #![trigger route_slot(i, j)]
                    0 <= i < j < AIRPORT_COUNT && 0 <= route_slot(i, j) < d@.len() ==> call_ensures(
                        distance,
                        (&aps@[i], &aps@[j]),
                        d@[route_slot(i, j)],
                    ),
            ensures
                d@.len() == ROUTE_COUNT,
                forall|i: int, j: int|
                    #![trigger route_slot(i, j)]
                    0 <= i < j < AIRPORT_COUNT ==> call_ensures(
                        distance,
                        (&aps@[i], &aps@[j]),
                        d@[route_slot(i, j)],
                    ),
            decreases ROUTE_COUNT - d@.len(),
        {
            let ghost before = d@;
            match walk.next() {
                Some((i, j)) => {
                    let v = distance(&aps[i], &aps[j]);
                    d.push(v);
                    proof {
                        assert forall|a: int, b: int|
                            #![trigger route_slot(a, b)]
                            0 <= a < b < AIRPORT_COUNT && 0 <= route_slot(a, b) < d@.len() implies call_ensures(
                                distance,
                                (&aps@[a], &aps@[b]),
                                d@[route_slot(a, b)],
                            ) by {
                            lemma_airport_pair_defined(a, b);
                            if route_slot(a, b) == before.len() {
                                lemma_pair_index_injective(
                                    AIRPORT_COUNT as int,
                                    a,
                                    b,
                                    i as int,
                                    j as int,
                                );
                            }
                        }
                    }
                },
                None => {
                    proof {
                        assert forall|a: int, b: int|
                            #![trigger route_slot(a, b)]
                            0 <= a < b < AIRPORT_COUNT implies 0 <= route_slot(a, b) < d@.len() by {
                            lemma_airport_pair_defined(a, b);
                        }
                    }
                    break;
                },
            }
        }
        DistanceMatrix(d)
    }

    pub fn data(&self) -> (r: &Vec<D>)
        ensures
            r@ == self@,
            r@.len() == ROUTE_COUNT,
    {
        proof {
            use_type_invariant(self);
        }
        &self.0
    }

    /// Distance of the undirected route `(oidx, didx)`, between two distinct
    /// airports.
    pub fn index(&self, od: (usize, usize)) -> (r: &D)
        requires
            route_slot_defined(od.0 as int, od.1 as int),
        ensures
            *r == self@[route_slot(od.0 as int, od.1 as int)],
    {
        proof {
            use_type_invariant(self);
        }
        &self.0[get_index(od.0, od.1)]
    }

    /// Distance of the route between two distinct airport indices, both below
    /// [AIRPORT_COUNT].
    pub fn get_unchecked(&self, oidx: usize, didx: usize) -> (r: D)
        requires
            oidx < AIRPORT_COUNT,
            didx < AIRPORT_COUNT,
            oidx != didx,
        ensures
            r == self@[route_slot(oidx as int, didx as int)],
    {
        proof {
            use_type_invariant(self);
        }
        self.0[get_index_unchecked(oidx, didx)]
    }
}

} // verus!
