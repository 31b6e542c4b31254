//! Choosing an intermediate stop between two airports.
//!
//! Distances are carried as order keys: integers ordered as the distances
//! they stand for (the bit patterns of non-negative `f32` distances have this
//! property). Every decision below only compares distances, so it is made on
//! the keys exactly as on the distances.
use vstd::prelude::*;

verus! {

/// A candidate stop, with the order keys of its two legs.
#[derive(Clone, Copy, Debug, PartialEq, Eq)]
pub struct StopoverCandidate {
    /// Index of the candidate airport.
    pub idx: usize,
    /// Runway length of the candidate airport.
    pub rwy: u16,
    /// Key of the leg from the origin to the candidate.
    pub inbound: u32,
    /// Key of the leg from the destination to the candidate.
    pub outbound: u32,
    /// Key of the total distance flown through the candidate.
    pub total: u32,
}

/// What a stop must satisfy for a given route and aircraft.
#[derive(Clone, Copy, Debug, PartialEq, Eq)]
pub struct StopoverLimits {
    pub origin: usize,
    pub destination: usize,
    /// Whether the game is played in realism mode, where runways matter.
    pub realism: bool,
    /// Runway the aircraft needs.
    pub aircraft_rwy: u16,
    /// Key of the aircraft's range.
    pub range: u32,
    /// Key of the shortest leg that counts as a flight.
    pub min_leg: u32,
}

/// The chosen stop: its position in the candidate list.
#[derive(Clone, Copy, Debug, PartialEq, Eq)]
pub struct Stopover(pub usize);

/// Runway the stop must offer: the aircraft's in realism mode, none otherwise.
pub open spec fn rwy_required(lim: StopoverLimits) -> u16 {
    if lim.realism {
        lim.aircraft_rwy
    } else {
        0
    }
}

/// `c` is neither end of the route and its runway suffices.
pub open spec fn serves_route(c: StopoverCandidate, lim: StopoverLimits) -> bool {
    &&& c.idx != lim.origin
    &&& c.idx != lim.destination
    &&& c.rwy >= rwy_required(lim)
}

/// Whether both legs through `c` can be flown: `c` serves the route and each
/// leg is a flight no longer than the range.
pub open spec fn usable(c: StopoverCandidate, lim: StopoverLimits) -> bool {
    &&& serves_route(c, lim)
    &&& lim.min_leg <= c.inbound <= lim.range
    &&& lim.min_leg <= c.outbound <= lim.range
}

/// Whether both legs through `c` can be flown with each leg shorter than the
/// range.
pub open spec fn usable_within_range(c: StopoverCandidate, lim: StopoverLimits) -> bool {
    &&& serves_route(c, lim)
    &&& lim.min_leg <= c.inbound < lim.range
    &&& lim.min_leg <= c.outbound < lim.range
}

/// A stop worth taking when minimising the total distance below `upper`.
pub open spec fn fits_below(c: StopoverCandidate, lim: StopoverLimits, upper: u32) -> bool {
    usable_within_range(c, lim) && c.total < upper
}

/// A stop worth taking when inflating the total distance towards `target`,
/// above `floor`.
pub open spec fn fits_target(c: StopoverCandidate, lim: StopoverLimits, target: u32, floor: u32) -> bool {
    usable(c, lim) && c.total <= target && c.total > floor
}

/// After the first `i` candidates: `best` is the first fitting candidate with
/// the greatest total, which `best_total` holds (`floor` while none fits).
pub open spec fn target_scan(
    cs: Seq<StopoverCandidate>,
    i: int,
    best: Option<usize>,
    best_total: u32,
    lim: StopoverLimits,
    target: u32,
    floor: u32,
) -> bool {
    match best {
        None => best_total == floor && forall|j: int|
            0 <= j < i ==> !fits_target(#[trigger] cs[j], lim, target, floor),
        Some(b) => {
            &&& b < i
            &&& fits_target(cs[b as int], lim, target, floor)
            &&& best_total == cs[b as int].total
            &&& forall|j: int|
                0 <= j < i && fits_target(#[trigger] cs[j], lim, target, floor) ==> cs[j].total
                    <= best_total
            &&& forall|j: int|
                0 <= j < b && fits_target(#[trigger] cs[j], lim, target, floor) ==> cs[j].total
                    < best_total
        },
    }
}

/// A stop counts for the target-distance search exactly when it is neither
/// end of the route, offers the aircraft's runway in realism mode (any runway
/// otherwise), and both legs are flights no longer than the range.
pub proof fn lemma_usable_meaning(c: StopoverCandidate, lim: StopoverLimits)
    ensures
        usable(c, lim) <==> {
            &&& c.idx != lim.origin
            &&& c.idx != lim.destination
            &&& (lim.realism ==> c.rwy >= lim.aircraft_rwy)
            &&& lim.min_leg <= c.inbound
            &&& c.inbound <= lim.range
            &&& lim.min_leg <= c.outbound
            &&& c.outbound <= lim.range
        },
{
}

/// A stop counts for the shortest-total search exactly when it is neither end
/// of the route, offers the aircraft's runway in realism mode (any runway
/// otherwise), and both legs are flights shorter than the range.
pub proof fn lemma_usable_within_range_meaning(c: StopoverCandidate, lim: StopoverLimits)
    ensures
        usable_within_range(c, lim) <==> {
            &&& c.idx != lim.origin
            &&& c.idx != lim.destination
            &&& (lim.realism ==> c.rwy >= lim.aircraft_rwy)
            &&& lim.min_leg <= c.inbound
            &&& c.inbound < lim.range
            &&& lim.min_leg <= c.outbound
            &&& c.outbound < lim.range
        },
{
}

/// A stop fits the target-distance search exactly when it counts for it and
/// its total lies above `floor` and at most at `target`.
pub proof fn lemma_fits_target_meaning(c: StopoverCandidate, lim: StopoverLimits, target: u32, floor: u32)
    ensures
        fits_target(c, lim, target, floor) <==> {
            &&& c.idx != lim.origin
            &&& c.idx != lim.destination
            &&& (lim.realism ==> c.rwy >= lim.aircraft_rwy)
            &&& lim.min_leg <= c.inbound <= lim.range
            &&& lim.min_leg <= c.outbound <= lim.range
            &&& floor < c.total <= target
        },
{
}

/// A stop fits the shortest-total search exactly when it counts for it and
/// its total lies below `upper`.
pub proof fn lemma_fits_below_meaning(c: StopoverCandidate, lim: StopoverLimits, upper: u32)
    ensures
        fits_below(c, lim, upper) <==> {
            &&& c.idx != lim.origin
            &&& c.idx != lim.destination
            &&& (lim.realism ==> c.rwy >= lim.aircraft_rwy)
            &&& lim.min_leg <= c.inbound < lim.range
            &&& lim.min_leg <= c.outbound < lim.range
            &&& c.total < upper
        },
{
}

pub fn runway_required(lim: &StopoverLimits) -> (r: u16)
    ensures
        r == rwy_required(*lim),
{
    if lim.realism {
        lim.aircraft_rwy
    } else {
        0
    }
}

pub fn serves(c: &StopoverCandidate, lim: &StopoverLimits) -> (r: bool)
    ensures
        r == serves_route(*c, *lim),
{
    c.idx != lim.origin && c.idx != lim.destination && c.rwy >= runway_required(lim)
}

pub fn is_usable(c: &StopoverCandidate, lim: &StopoverLimits) -> (r: bool)
    ensures
        r == usable(*c, *lim),
{
    serves(c, lim) && lim.min_leg <= c.inbound && c.inbound <= lim.range && lim.min_leg
        <= c.outbound && c.outbound <= lim.range
}

pub fn is_usable_within_range(c: &StopoverCandidate, lim: &StopoverLimits) -> (r: bool)
    ensures
        r == usable_within_range(*c, *lim),
{
    serves(c, lim) && lim.min_leg <= c.inbound && c.inbound < lim.range && lim.min_leg
        <= c.outbound && c.outbound < lim.range
}

impl Stopover {
    /// The stop that makes the total distance shortest: among the candidates
    /// serving the route with each leg shorter than the range and whose total
    /// is below `upper`, the first with the least
    /// total, together with that total; `None` when no candidate qualifies.
    pub fn find_by_efficiency(
        candidates: &Vec<StopoverCandidate>,
        lim: &StopoverLimits,
        upper: u32,
    ) -> (r: Option<(Stopover, u32)>)
        ensures
            match r {
                None => forall|i: int|
                    0 <= i < candidates@.len() ==> !fits_below(#[trigger] candidates@[i], *lim, upper),
                Some((s, d)) => {
                    &&& s.0 < candidates@.len()
                    &&& fits_below(candidates@[s.0 as int], *lim, upper)
                    &&& d == candidates@[s.0 as int].total
                    &&& forall|i: int|
                        0 <= i < candidates@.len() && fits_below(#[trigger] candidates@[i], *lim, upper)
                            ==> d <= candidates@[i].total
                    &&& forall|i: int|
                        0 <= i < s.0 && fits_below(#[trigger] candidates@[i], *lim, upper) ==> d
                            < candidates@[i].total
                },
            },
            r matches Some((s, d)) ==> {
                let c = candidates@[s.0 as int];
                &&& c.idx != lim.origin && c.idx != lim.destination
                &&& (lim.realism ==> c.rwy >= lim.aircraft_rwy)
                &&& lim.min_leg <= c.inbound < lim.range
                &&& lim.min_leg <= c.outbound < lim.range
                &&& d == c.total && d < upper
            },
    {
        let n = candidates.len();
        let mut best: Option<usize> = None;
        let mut best_total: u32 = upper;
        let mut i: usize = 0;
        while i < n
            invariant
                i <= n,
                n == candidates@.len(),
                match best {
                    None => best_total == upper && forall|j: int|
                        0 <= j < i ==> !fits_below(#[trigger] candidates@[j], *lim, upper),
                    Some(b) => {
                        &&& b < i
                        &&& fits_below(candidates@[b as int], *lim, upper)
                        &&& best_total == candidates@[b as int].total
                        &&& forall|j: int|
                            0 <= j < i && fits_below(#[trigger] candidates@[j], *lim, upper)
                                ==> best_total <= candidates@[j].total
                        &&& forall|j: int|
                            0 <= j < b && fits_below(#[trigger] candidates@[j], *lim, upper)
                                ==> best_total < candidates@[j].total
                    },
                },
            decreases n - i,
        {
            let c = &candidates[i];
            if is_usable_within_range(c, lim) && c.total < best_total {
                best = Some(i);
                best_total = c.total;
            }
            i = i + 1;
        }
        match best {
            None => None,
            Some(b) => Some((Stopover(b), best_total)),
        }
    }

    /// The stop that brings the total distance closest to `target` without
    /// exceeding it: among the usable candidates whose total lies above
    /// `floor` and at most at `target`, the first with the greatest total,
    /// together with that total; `None` when no candidate qualifies.
    pub fn find_by_target_distance_lt(
        candidates: &Vec<StopoverCandidate>,
        lim: &StopoverLimits,
        target: u32,
        floor: u32,
    ) -> (r: Option<(Stopover, u32)>)
        ensures
            match r {
                None => forall|i: int|
                    0 <= i < candidates@.len() ==> !fits_target(
                        #[trigger] candidates@[i],
                        *lim,
                        target,
                        floor,
                    ),
                Some((s, d)) => {
                    &&& s.0 < candidates@.len()
                    &&& fits_target(candidates@[s.0 as int], *lim, target, floor)
                    &&& d == candidates@[s.0 as int].total
                    &&& forall|i: int|
                        0 <= i < candidates@.len() && fits_target(
                            #[trigger] candidates@[i],
                            *lim,
                            target,
                            floor,
                        ) ==> candidates@[i].total <= d
                    &&& forall|i: int|
                        0 <= i < s.0 && fits_target(#[trigger] candidates@[i], *lim, target, floor)
                            ==> candidates@[i].total < d
                },
            },
            r matches Some((s, d)) ==> {
                let c = candidates@[s.0 as int];
                &&& c.idx != lim.origin && c.idx != lim.destination
                &&& (lim.realism ==> c.rwy >= lim.aircraft_rwy)
                &&& lim.min_leg <= c.inbound <= lim.range
                &&& lim.min_leg <= c.outbound <= lim.range
                &&& d == c.total && floor < d <= target
            },
    {
        let n = candidates.len();
        let mut best: Option<usize> = None;
        let mut best_total: u32 = floor;
        let mut i: usize = 0;
        while i < n
            invariant
                i <= n,
                n == candidates@.len(),
                target_scan(candidates@, i as int, best, best_total, *lim, target, floor),
            decreases n - i,
        {
            let c = &candidates[i];
            if is_usable(c, lim) && c.total <= target && c.total > best_total {
                best = Some(i);
                best_total = c.total;
            }
            i = i + 1;
        }
        match best {
            None => None,
            Some(b) => Some((Stopover(b), best_total)),
        }
    }
}

} // verus!
