//! Scheduling strategies: how many trips per day and how many aircraft a
//! route is planned for, which cost index is flown, and how the strategy
//! fields typed by the user are read.
use vstd::prelude::*;
use crate::ci::{Ci, ValidationError};
use crate::text::{blank, is_blank, parse_u8, parse_u8_spec};
use vstd::utf8::encode_utf8;

verus! {

#[derive(Debug, Clone, Copy, PartialEq, Eq, Structural)]
pub enum ScheduleError {
    /// distance failed the provided constraint
    DistanceConstraint,
    /// flight time failed the provided constraint
    FlightTimeConstraint,
    /// insufficient demand
    InsufficientDemand,
    /// trips per day too high for flight time
    TripsPerDayTooHigh,
}

/// A count that is never zero.
#[derive(Debug, Clone, Copy, PartialEq, Eq, PartialOrd, Structural)]
pub struct NonZeroCount(u8);

impl NonZeroCount {
    #[verifier::type_invariant]
    spec fn wf(self) -> bool {
        self.0 != 0
    }

    pub closed spec fn value(self) -> u8 {
        self.0
    }

    pub fn new(n: u8) -> (r: Option<NonZeroCount>)
        ensures
            r is Some <==> n != 0,
            r matches Some(c) ==> c.value() == n,
    {
        if n == 0 {
            None
        } else {
            Some(NonZeroCount(n))
        }
    }

    pub fn one() -> (r: NonZeroCount)
        ensures
            r.value() == 1,
    {
        NonZeroCount(1)
    }

    pub fn get(self) -> (r: u8)
        ensures
            r == self.value(),
            r != 0,
    {
        proof {
            use_type_invariant(&self);
        }
        self.0
    }
}

pub type TripsPerDay = NonZeroCount;

pub type NumAircraft = NonZeroCount;

#[derive(Debug, Clone, Copy, PartialEq, Eq, Structural)]
pub enum TripsPerDayStrategy {
    Maximise,
    Strict(TripsPerDay),
}

#[derive(Debug, Clone, Copy, PartialEq, Eq, Structural)]
pub enum NumAircraftStrategy {
    Maximise,
    Strict(NumAircraft),
}

#[derive(Debug, Clone, Copy, PartialEq, Eq, Structural)]
pub struct ScheduleStrategy {
    pub trips_per_day: TripsPerDayStrategy,
    pub num_aircraft: NumAircraftStrategy,
}

#[derive(Debug, Clone, Copy, PartialEq, Eq, Structural)]
pub enum CiStrategy {
    Strict(Ci),
    AlignConstraint,
}

#[derive(Debug, Clone, Copy, PartialEq, Eq, Structural)]
pub enum SortBy {
    ProfitPerAcPerDay,
    ProfitPerTrip,
}

impl Default for TripsPerDayStrategy {
    fn default() -> (r: TripsPerDayStrategy)
        ensures
            r == TripsPerDayStrategy::Maximise,
    {
        TripsPerDayStrategy::Maximise
    }
}

impl Default for NumAircraftStrategy {
    fn default() -> (r: NumAircraftStrategy)
        ensures
            r matches NumAircraftStrategy::Strict(n) && n.value() == 1,
    {
        NumAircraftStrategy::Strict(NonZeroCount::one())
    }
}

impl Default for ScheduleStrategy {
    fn default() -> (r: ScheduleStrategy)
        ensures
            r.trips_per_day == TripsPerDayStrategy::Maximise,
            r.num_aircraft matches NumAircraftStrategy::Strict(n) && n.value() == 1,
    {
        ScheduleStrategy {
            trips_per_day: TripsPerDayStrategy::Maximise,
            num_aircraft: NumAircraftStrategy::Strict(NonZeroCount::one()),
        }
    }
}

impl Default for CiStrategy {
    fn default() -> (r: CiStrategy)
        ensures
            r matches CiStrategy::Strict(c) && c.value() == 200,
    {
        CiStrategy::Strict(Ci::default())
    }
}

impl Default for SortBy {
    fn default() -> (r: SortBy)
        ensures
            r == SortBy::ProfitPerAcPerDay,
    {
        SortBy::ProfitPerAcPerDay
    }
}

/// Why a strategy field typed by the user was refused.
#[derive(Debug, Clone, Copy, PartialEq, Eq, Structural)]
pub enum StrategyInputError {
    /// The field is empty.
    Required,
    /// The field is not a number from 1 to 255.
    MustBePositive,
    /// The field is not a cost index from 0 to 200.
    CiOutOfRange,
}

impl StrategyInputError {
    /// The message shown under the field.
    pub fn message(&self) -> (r: &'static str)
        ensures
            r@ == match *self {
                StrategyInputError::Required => "Required"@,
                StrategyInputError::MustBePositive => "Must be > 0"@,
                StrategyInputError::CiOutOfRange => "0-200"@,
            },
    {
        match self {
            StrategyInputError::Required => "Required",
            StrategyInputError::MustBePositive => "Must be > 0",
            StrategyInputError::CiOutOfRange => "0-200",
        }
    }
}

/// A count field: `Some(n)` for a decimal `n` from 1 to 255.
pub open spec fn positive_count(text: Seq<char>) -> Option<u8> {
    match parse_u8_spec(encode_utf8(text)) {
        Some(v) => if v != 0 {
            Some(v)
        } else {
            None
        },
        None => None,
    }
}

/// What a count field reads as: the "maximise" button wins; an empty (or
/// blank) field is required; otherwise it must be a positive count. A
/// refused field reads as one.
pub open spec fn count_input(is_max: bool, text: Seq<char>) -> (
    Option<u8>,
    Option<StrategyInputError>,
) {
    if is_max {
        (None, None)
    } else if is_blank(text) {
        (Some(1), Some(StrategyInputError::Required))
    } else {
        match positive_count(text) {
            Some(n) => (Some(n), None),
            None => (Some(1), Some(StrategyInputError::MustBePositive)),
        }
    }
}

/// What the cost index field reads as: aligned to the flight time limit when
/// asked for and a maximum flight time was typed; otherwise a cost index from
/// 0 to 200 is required. A refused field reads as 200.
pub open spec fn ci_input(is_auto: bool, ft_max_given: bool, text: Seq<char>) -> (
    Option<u8>,
    Option<StrategyInputError>,
) {
    if is_auto && ft_max_given {
        (None, None)
    } else if is_blank(text) {
        (Some(200), Some(StrategyInputError::Required))
    } else {
        match parse_u8_spec(encode_utf8(text)) {
            Some(v) => if v <= 200 {
                (Some(v), None)
            } else {
                (Some(200), Some(StrategyInputError::CiOutOfRange))
            },
            None => (Some(200), Some(StrategyInputError::CiOutOfRange)),
        }
    }
}

/// Reading the cost index field: with auto ticked and a maximum flight time
/// given, the cost index is aligned to that time whatever the field holds,
/// and nothing is refused; otherwise a cost index of at most 200 is read, the
/// field's own value when it holds one of at most 200 (and then without
/// error), else 200 with an error.
pub proof fn lemma_ci_input_meaning(is_auto: bool, ft_max_given: bool, text: Seq<char>)
    ensures
        is_auto && ft_max_given ==> ci_input(is_auto, ft_max_given, text) == (
            None::<u8>,
            None::<StrategyInputError>,
        ),
        !(is_auto && ft_max_given) ==> (ci_input(is_auto, ft_max_given, text).0 matches Some(v)
            && v <= 200),
        !(is_auto && ft_max_given) ==> (ci_input(is_auto, ft_max_given, text).1 is None <==> (
        !is_blank(text) && (parse_u8_spec(encode_utf8(text)) matches Some(v) && v <= 200))),
        !(is_auto && ft_max_given) && ci_input(is_auto, ft_max_given, text).1 is None ==> Some(
            ci_input(is_auto, ft_max_given, text).0->0,
        ) == parse_u8_spec(encode_utf8(text)),
        !(is_auto && ft_max_given) && ci_input(is_auto, ft_max_given, text).1 is Some
            ==> ci_input(is_auto, ft_max_given, text).0 == Some(200u8),
{
}

/// Read a count field (number of aircraft or trips per day).
pub fn read_count(is_max: bool, text: &str) -> (r: (Option<NonZeroCount>, Option<StrategyInputError>))
    ensures
        r.1 == count_input(is_max, text@).1,
        r.0 is None <==> count_input(is_max, text@).0 is None,
        r.0 matches Some(c) ==> Some(c.value()) == count_input(is_max, text@).0,
{
    if is_max {
        (None, None)
    } else if blank(text) {
        (Some(NonZeroCount::one()), Some(StrategyInputError::Required))
    } else {
        match parse_u8(text) {
            Some(v) => match NonZeroCount::new(v) {
                Some(c) => (Some(c), None),
                None => (Some(NonZeroCount::one()), Some(StrategyInputError::MustBePositive)),
            },
            None => (Some(NonZeroCount::one()), Some(StrategyInputError::MustBePositive)),
        }
    }
}

/// Read the cost index field.
pub fn read_ci(is_auto: bool, ft_max_given: bool, text: &str) -> (r: (
    CiStrategy,
    Option<StrategyInputError>,
))
    ensures
        r.1 == ci_input(is_auto, ft_max_given, text@).1,
        r.0 is AlignConstraint <==> ci_input(is_auto, ft_max_given, text@).0 is None,
        r.0 matches CiStrategy::Strict(c) ==> Some(c.value()) == ci_input(
            is_auto,
            ft_max_given,
            text@,
        ).0,
        is_auto && ft_max_given ==> r.0 is AlignConstraint && r.1 is None,
        !(is_auto && ft_max_given) ==> r.0 is Strict,
{
    if is_auto && ft_max_given {
        (CiStrategy::AlignConstraint, None)
    } else if blank(text) {
        (CiStrategy::Strict(Ci::max()), Some(StrategyInputError::Required))
    } else {
        match parse_u8(text) {
            Some(v) => match Ci::new(v) {
                Ok(c) => (CiStrategy::Strict(c), None),
                Err(_) => (CiStrategy::Strict(Ci::max()), Some(StrategyInputError::CiOutOfRange)),
            },
            None => (CiStrategy::Strict(Ci::max()), Some(StrategyInputError::CiOutOfRange)),
        }
    }
}

/// The strategy part of the route search form, and the message of each
/// refused field.
#[derive(Debug, Clone, Copy, PartialEq, Eq, Structural)]
pub struct StrategyInputs {
    pub schedule: ScheduleStrategy,
    pub ci: CiStrategy,
    pub num_ac_error: Option<StrategyInputError>,
    pub tpd_error: Option<StrategyInputError>,
    pub ci_error: Option<StrategyInputError>,
}

impl StrategyInputs {
    pub open spec fn has_errors(self) -> bool {
        self.num_ac_error is Some || self.tpd_error is Some || self.ci_error is Some
    }

    pub fn any_error(&self) -> (r: bool)
        ensures
            r == self.has_errors(),
    {
        self.num_ac_error.is_some() || self.tpd_error.is_some() || self.ci_error.is_some()
    }
}

/// Read the strategy fields of the route search form. A hidden field reads
/// as its default: one aircraft, one trip per day, cost index 200. The cost
/// index may follow the flight time limit only when a maximum flight time
/// was typed (`f_max` not blank) and the distance filters are shown.
#[allow(clippy::too_many_arguments)]
pub fn read_strategy_inputs(
    n_ac: &str,
    n_ac_is_max: bool,
    tpd: &str,
    tpd_is_max: bool,
    ci_s: &str,
    ci_is_auto: bool,
    f_max: &str,
    show_distance_filters: bool,
    show_num_ac: bool,
    show_tpd: bool,
    show_ci: bool,
) -> (r: StrategyInputs)
    ensures
        show_num_ac ==> r.num_ac_error == count_input(n_ac_is_max, n_ac@).1,
        show_num_ac ==> (r.schedule.num_aircraft is Maximise <==> count_input(
            n_ac_is_max,
            n_ac@,
        ).0 is None),
        show_num_ac ==> (r.schedule.num_aircraft matches NumAircraftStrategy::Strict(n) ==> Some(
            n.value(),
        ) == count_input(n_ac_is_max, n_ac@).0),
        !show_num_ac ==> r.num_ac_error is None,
        !show_num_ac ==> (r.schedule.num_aircraft matches NumAircraftStrategy::Strict(n) && n.value() == 1),
        show_tpd ==> r.tpd_error == count_input(tpd_is_max, tpd@).1,
        show_tpd ==> (r.schedule.trips_per_day is Maximise <==> count_input(tpd_is_max, tpd@).0 is None),
        show_tpd ==> (r.schedule.trips_per_day matches TripsPerDayStrategy::Strict(n) ==> Some(
            n.value(),
        ) == count_input(tpd_is_max, tpd@).0),
        !show_tpd ==> r.tpd_error is None,
        !show_tpd ==> (r.schedule.trips_per_day matches TripsPerDayStrategy::Strict(n) && n.value() == 1),
        show_ci ==> r.ci_error == ci_input(
            ci_is_auto,
            show_distance_filters && !is_blank(f_max@),
            ci_s@,
        ).1,
        show_ci ==> (r.ci is AlignConstraint <==> ci_input(
            ci_is_auto,
            show_distance_filters && !is_blank(f_max@),
            ci_s@,
        ).0 is None),
        show_ci ==> (r.ci matches CiStrategy::Strict(c) ==> Some(c.value()) == ci_input(
            ci_is_auto,
            show_distance_filters && !is_blank(f_max@),
            ci_s@,
        ).0),
        !show_ci ==> r.ci_error is None,
        !show_ci ==> (r.ci matches CiStrategy::Strict(c) && c.value() == 200),
        show_ci && ci_is_auto && show_distance_filters && !is_blank(f_max@) ==> r.ci is AlignConstraint
            && r.ci_error is None,
        !(show_ci && ci_is_auto && show_distance_filters && !is_blank(f_max@)) ==> r.ci is Strict,
{
    let ft_max_given = show_distance_filters && !blank(f_max);
    let (num_aircraft, num_ac_error) = if show_num_ac {
        match read_count(n_ac_is_max, n_ac) {
            (None, e) => (NumAircraftStrategy::Maximise, e),
            (Some(n), e) => (NumAircraftStrategy::Strict(n), e),
        }
    } else {
        (NumAircraftStrategy::Strict(NonZeroCount::one()), None)
    };
    let (trips_per_day, tpd_error) = if show_tpd {
        match read_count(tpd_is_max, tpd) {
            (None, e) => (TripsPerDayStrategy::Maximise, e),
            (Some(n), e) => (TripsPerDayStrategy::Strict(n), e),
        }
    } else {
        (TripsPerDayStrategy::Strict(NonZeroCount::one()), None)
    };
    let (ci, ci_error) = if show_ci {
        read_ci(ci_is_auto, ft_max_given, ci_s)
    } else {
        (CiStrategy::Strict(Ci::max()), None)
    };
    StrategyInputs {
        schedule: ScheduleStrategy { trips_per_day, num_aircraft },
        ci,
        num_ac_error,
        tpd_error,
        ci_error,
    }
}

/// Trips per day each aircraft flies, given the most the flight time allows
/// in a day: a fixed count must not exceed it; "maximise" takes it. `None`
/// when no trip fits in a day or the fixed count is too high.
pub fn trips_per_aircraft(strategy: TripsPerDayStrategy, max_tpd_phys: u8) -> (r: Option<TripsPerDay>)
    ensures
        max_tpd_phys == 0 ==> r is None,
        max_tpd_phys != 0 ==> match strategy {
            TripsPerDayStrategy::Strict(t) => if t.value() > max_tpd_phys {
                r is None
            } else {
                r == Some(t)
            },
            TripsPerDayStrategy::Maximise => r matches Some(t) && t.value() == max_tpd_phys,
        },
{
    let max = match NonZeroCount::new(max_tpd_phys) {
        Some(m) => m,
        None => {
            return None;
        },
    };
    match strategy {
        TripsPerDayStrategy::Strict(t) => if t.get() > max.get() {
            None
        } else {
            Some(t)
        },
        TripsPerDayStrategy::Maximise => Some(max),
    }
}

/// How a trial configuration for a given number of daily trips turned out.
#[derive(Debug, Clone, Copy, PartialEq, Eq, Structural)]
pub enum TrialOutcome {
    /// No configuration serves the demand at that frequency.
    NoConfig,
    /// A configuration was found; `keeps_income` tells whether its income per
    /// trip stays at or above the tolerated loss from the single-aircraft
    /// income (only consulted while adding aircraft).
    Found { keeps_income: bool },
}

/// Trips per day of each aircraft and number of aircraft of a schedule.
#[derive(Debug, Clone, Copy, PartialEq, Eq, Structural)]
pub struct ScheduleChoice {
    pub tpd: u8,
    pub num_ac: u8,
}

/// Where the search for trips per day and number of aircraft stands. Each
/// state but `Finished` is waiting for the outcome of the trial it names.
#[derive(Debug, Clone, Copy, PartialEq, Eq, Structural)]
pub enum ScheduleSearch {
    /// Both counts are fixed: a single trial.
    Fixed { tpd: u8, num_ac: u8 },
    /// Trips per day are maximised: count down from the most that fit.
    FewerTrips { tpd: u8, num_ac: u8 },
    /// Aircraft are maximised: add aircraft while the income per trip holds.
    MoreAircraft { tpd: u8, num_ac: u8 },
    /// The search is over, with the chosen `(tpd, num_ac)` if any.
    Finished(Option<ScheduleChoice>),
}

/// What the caller does next.
#[derive(Debug, Clone, Copy, PartialEq, Eq, Structural)]
pub enum SearchAction {
    /// Configure the route for `total` daily trips (`tpd` per aircraft times
    /// `num_ac` aircraft) and report the outcome.
    Try { tpd: u8, num_ac: u8, total: u32 },
    /// Stop, with the chosen trial if any.
    Finish(Option<ScheduleChoice>),
}

/// The counts in a waiting state are positive, and at most 199 aircraft are
/// ever tried.
pub open spec fn search_wf(s: ScheduleSearch) -> bool {
    match s {
        ScheduleSearch::Fixed { tpd, num_ac } => tpd >= 1 && num_ac >= 1,
        ScheduleSearch::FewerTrips { tpd, num_ac } => tpd >= 1 && num_ac >= 1,
        ScheduleSearch::MoreAircraft { tpd, num_ac } => tpd >= 1 && 1 <= num_ac <= 199,
        ScheduleSearch::Finished(_) => true,
    }
}

/// The action a state calls for.
pub open spec fn action_of(s: ScheduleSearch) -> SearchAction {
    match s {
        ScheduleSearch::Fixed { tpd, num_ac } => SearchAction::Try {
            tpd,
            num_ac,
            total: (tpd * num_ac) as u32,
        },
        ScheduleSearch::FewerTrips { tpd, num_ac } => SearchAction::Try {
            tpd,
            num_ac,
            total: (tpd * num_ac) as u32,
        },
        ScheduleSearch::MoreAircraft { tpd, num_ac } => SearchAction::Try {
            tpd,
            num_ac,
            total: (tpd * num_ac) as u32,
        },
        ScheduleSearch::Finished(x) => SearchAction::Finish(x),
    }
}

/// The first state of the search, given the strategy and the trips per day
/// each aircraft flies. Maximising both counts is not supported and yields
/// nothing.
pub open spec fn search_start(strategy: ScheduleStrategy, tpd: u8) -> ScheduleSearch {
    match (strategy.trips_per_day, strategy.num_aircraft) {
        (TripsPerDayStrategy::Strict(_), NumAircraftStrategy::Strict(n)) => ScheduleSearch::Fixed {
            tpd,
            num_ac: n.value(),
        },
        (TripsPerDayStrategy::Maximise, NumAircraftStrategy::Strict(n)) => ScheduleSearch::FewerTrips {
            tpd,
            num_ac: n.value(),
        },
        (TripsPerDayStrategy::Strict(_), NumAircraftStrategy::Maximise) => ScheduleSearch::MoreAircraft {
            tpd,
            num_ac: 1,
        },
        (TripsPerDayStrategy::Maximise, NumAircraftStrategy::Maximise) => ScheduleSearch::Finished(
            None,
        ),
    }
}

/// The state after the outcome of the pending trial.
pub open spec fn search_next(s: ScheduleSearch, o: TrialOutcome) -> ScheduleSearch {
    match s {
        ScheduleSearch::Fixed { tpd, num_ac } => match o {
            TrialOutcome::NoConfig => ScheduleSearch::Finished(None),
            TrialOutcome::Found { .. } => ScheduleSearch::Finished(Some(ScheduleChoice { tpd, num_ac })),
        },
        ScheduleSearch::FewerTrips { tpd, num_ac } => match o {
            TrialOutcome::Found { .. } => ScheduleSearch::Finished(Some(ScheduleChoice { tpd, num_ac })),
            TrialOutcome::NoConfig => if tpd > 1 {
                ScheduleSearch::FewerTrips { tpd: (tpd - 1) as u8, num_ac }
            } else {
                ScheduleSearch::Finished(None)
            },
        },
        ScheduleSearch::MoreAircraft { tpd, num_ac } => match o {
            TrialOutcome::NoConfig => if num_ac == 1 {
                ScheduleSearch::Finished(None)
            } else {
                ScheduleSearch::Finished(Some(ScheduleChoice { tpd, num_ac: (num_ac - 1) as u8 }))
            },
            TrialOutcome::Found { keeps_income } => if num_ac > 1 && !keeps_income {
                ScheduleSearch::Finished(Some(ScheduleChoice { tpd, num_ac: (num_ac - 1) as u8 }))
            } else if num_ac < 199 {
                ScheduleSearch::MoreAircraft { tpd, num_ac: (num_ac + 1) as u8 }
            } else {
                ScheduleSearch::Finished(Some(ScheduleChoice { tpd, num_ac }))
            },
        },
        ScheduleSearch::Finished(x) => ScheduleSearch::Finished(x),
    }
}

/// Trials the search may still ask for, at most.
pub open spec fn trials_left(s: ScheduleSearch) -> nat {
    match s {
        ScheduleSearch::Fixed { .. } => 1,
        ScheduleSearch::FewerTrips { tpd, .. } => tpd as nat,
        ScheduleSearch::MoreAircraft { num_ac, .. } => (200 - num_ac) as nat,
        ScheduleSearch::Finished(_) => 0,
    }
}

/// Every reported outcome brings the search closer to its end: a fixed
/// schedule takes one trial, counting trips down at most as many trials as
/// trips per day, and adding aircraft at most 199 trials.
pub proof fn lemma_search_progress(s: ScheduleSearch, o: TrialOutcome)
    requires
        search_wf(s),
        !(s is Finished),
    ensures
        trials_left(search_next(s, o)) < trials_left(s),
        search_wf(search_next(s, o)),
        search_next(s, o) matches ScheduleSearch::Finished(Some(c)) ==> c.tpd >= 1 && c.num_ac >= 1,
{
}

/// Where the search ends when each trial of `tpd` trips per day on `num_ac`
/// aircraft has the outcome `outcome(tpd, num_ac)`.
pub open spec fn search_result(s: ScheduleSearch, outcome: spec_fn(u8, u8) -> TrialOutcome) -> Option<
    ScheduleChoice,
>
    decreases trials_left(s),
{
    match s {
        ScheduleSearch::Finished(x) => x,
        ScheduleSearch::Fixed { tpd, num_ac } => if search_wf(s) {
            let o = outcome(tpd, num_ac);
            proof {
                lemma_search_progress(s, o);
            }
            search_result(search_next(s, o), outcome)
        } else {
            None
        },
        ScheduleSearch::FewerTrips { tpd, num_ac } => if search_wf(s) {
            let o = outcome(tpd, num_ac);
            proof {
                lemma_search_progress(s, o);
            }
            search_result(search_next(s, o), outcome)
        } else {
            None
        },
        ScheduleSearch::MoreAircraft { tpd, num_ac } => if search_wf(s) {
            let o = outcome(tpd, num_ac);
            proof {
                lemma_search_progress(s, o);
            }
            search_result(search_next(s, o), outcome)
        } else {
            None
        },
    }
}

/// With both counts fixed the search makes a single trial and keeps it when a
/// configuration is found.
pub proof fn lemma_fixed_schedule(tpd: u8, num_ac: u8, outcome: spec_fn(u8, u8) -> TrialOutcome)
    requires
        tpd >= 1,
        num_ac >= 1,
    ensures
        search_result(ScheduleSearch::Fixed { tpd, num_ac }, outcome) == if outcome(tpd, num_ac) is Found {
            Some(ScheduleChoice { tpd, num_ac })
        } else {
            None
        },
{
    reveal_with_fuel(search_result, 2);
}

/// Maximising trips per day chooses the largest count, from `tpd` down, for
/// which a configuration is found; none when there is no such count.
pub proof fn lemma_fewer_trips(tpd: u8, num_ac: u8, outcome: spec_fn(u8, u8) -> TrialOutcome)
    requires
        tpd >= 1,
        num_ac >= 1,
    ensures
        match search_result(ScheduleSearch::FewerTrips { tpd, num_ac }, outcome) {
            Some(c) => {
                &&& c.num_ac == num_ac
                &&& 1 <= c.tpd <= tpd
                &&& outcome(c.tpd, num_ac) is Found
                &&& forall|t: u8| c.tpd < t <= tpd ==> #[trigger] outcome(t, num_ac) is NoConfig
            },
            None => forall|t: u8| 1 <= t <= tpd ==> #[trigger] outcome(t, num_ac) is NoConfig,
        },
    decreases tpd,
{
    reveal_with_fuel(search_result, 2);
    if outcome(tpd, num_ac) is NoConfig && tpd > 1 {
        lemma_fewer_trips((tpd - 1) as u8, num_ac, outcome);
    }
}

/// Maximising aircraft from `num_ac` on: keep adding aircraft while a
/// configuration is found that keeps the income per trip (the first aircraft
/// only needs a configuration), up to 199 aircraft; the count reached is
/// chosen, none when even the first has no configuration.
pub proof fn lemma_more_aircraft(tpd: u8, num_ac: u8, outcome: spec_fn(u8, u8) -> TrialOutcome)
    requires
        tpd >= 1,
        1 <= num_ac <= 199,
        num_ac > 1 ==> outcome(tpd, 1) is Found && forall|k: u8|
            2 <= k < num_ac ==> #[trigger] outcome(tpd, k) == (TrialOutcome::Found { keeps_income: true }),
    ensures
        match search_result(ScheduleSearch::MoreAircraft { tpd, num_ac }, outcome) {
            Some(c) => {
                &&& c.tpd == tpd
                &&& 1 <= c.num_ac <= 199
                &&& outcome(tpd, 1) is Found
                &&& forall|k: u8|
                    2 <= k <= c.num_ac ==> #[trigger] outcome(tpd, k) == (TrialOutcome::Found {
                        keeps_income: true,
                    })
                &&& c.num_ac < 199 ==> outcome(tpd, (c.num_ac + 1) as u8) != (TrialOutcome::Found {
                    keeps_income: true,
                })
            },
            None => num_ac == 1 && outcome(tpd, 1) is NoConfig,
        },
    decreases 200 - num_ac,
{
    reveal_with_fuel(search_result, 2);
    let o = outcome(tpd, num_ac);
    let grows = match o {
        TrialOutcome::Found { keeps_income } => !(num_ac > 1 && !keeps_income) && num_ac < 199,
        TrialOutcome::NoConfig => false,
    };
    if grows {
        lemma_more_aircraft(tpd, (num_ac + 1) as u8, outcome);
    }
}

/// From its start the search chooses what the three laws above say: one trial
/// for fixed counts, the largest workable trips per day, or the largest
/// number of aircraft, between 1 and 199, that keeps the income; nothing
/// when both counts are maximised.
pub proof fn lemma_search_outcome(
    strategy: ScheduleStrategy,
    tpd: u8,
    outcome: spec_fn(u8, u8) -> TrialOutcome,
)
    requires
        tpd >= 1,
        strategy.num_aircraft matches NumAircraftStrategy::Strict(n) ==> n.value() >= 1,
    ensures
        match (strategy.trips_per_day, strategy.num_aircraft) {
            (TripsPerDayStrategy::Strict(_), NumAircraftStrategy::Strict(n)) => search_result(
                search_start(strategy, tpd),
                outcome,
            ) == if outcome(tpd, n.value()) is Found {
                Some(ScheduleChoice { tpd, num_ac: n.value() })
            } else {
                None
            },
            (TripsPerDayStrategy::Maximise, NumAircraftStrategy::Strict(n)) => match search_result(
                search_start(strategy, tpd),
                outcome,
            ) {
                Some(c) => c.num_ac == n.value() && 1 <= c.tpd <= tpd && outcome(c.tpd, c.num_ac) is Found
                    && forall|t: u8| c.tpd < t <= tpd ==> #[trigger] outcome(t, c.num_ac) is NoConfig,
                None => forall|t: u8| 1 <= t <= tpd ==> #[trigger] outcome(t, n.value()) is NoConfig,
            },
            (TripsPerDayStrategy::Strict(_), NumAircraftStrategy::Maximise) => match search_result(
                search_start(strategy, tpd),
                outcome,
            ) {
                Some(c) => c.tpd == tpd && 1 <= c.num_ac <= 199,
                None => outcome(tpd, 1) is NoConfig,
            },
            (TripsPerDayStrategy::Maximise, NumAircraftStrategy::Maximise) => search_result(
                search_start(strategy, tpd),
                outcome,
            ) is None,
        },
{
    match (strategy.trips_per_day, strategy.num_aircraft) {
        (TripsPerDayStrategy::Strict(_), NumAircraftStrategy::Strict(n)) => {
            lemma_fixed_schedule(tpd, n.value(), outcome);
        },
        (TripsPerDayStrategy::Maximise, NumAircraftStrategy::Strict(n)) => {
            lemma_fewer_trips(tpd, n.value(), outcome);
        },
        (TripsPerDayStrategy::Strict(_), NumAircraftStrategy::Maximise) => {
            lemma_more_aircraft(tpd, 1, outcome);
        },
        _ => {},
    }
}

/// Daily trips of all aircraft together.
fn total_trips(tpd: u8, num_ac: u8) -> (r: u32)
    ensures
        r == tpd * num_ac,
{
    assert(0 <= tpd as u32 * num_ac as u32 <= 255 * 255) by (nonlinear_arith)
        requires
            tpd <= 255,
            num_ac <= 255,
    ;
    tpd as u32 * num_ac as u32
}

impl ScheduleSearch {
    fn action(&self) -> (r: SearchAction)
        requires
            search_wf(*self),
        ensures
            r == action_of(*self),
    {
        match *self {
            ScheduleSearch::Fixed { tpd, num_ac } => SearchAction::Try {
                tpd,
                num_ac,
                total: total_trips(tpd, num_ac),
            },
            ScheduleSearch::FewerTrips { tpd, num_ac } => SearchAction::Try {
                tpd,
                num_ac,
                total: total_trips(tpd, num_ac),
            },
            ScheduleSearch::MoreAircraft { tpd, num_ac } => SearchAction::Try {
                tpd,
                num_ac,
                total: total_trips(tpd, num_ac),
            },
            ScheduleSearch::Finished(x) => SearchAction::Finish(x),
        }
    }

    /// Begin the search for a route whose aircraft each fly `tpd_per_ac`
    /// trips per day.
    pub fn start(strategy: ScheduleStrategy, tpd_per_ac: TripsPerDay) -> (r: (
        ScheduleSearch,
        SearchAction,
    ))
        ensures
            r.0 == search_start(strategy, tpd_per_ac.value()),
            search_wf(r.0),
            r.1 == action_of(r.0),
    {
        let tpd = tpd_per_ac.get();
        let s = match (strategy.trips_per_day, strategy.num_aircraft) {
            (TripsPerDayStrategy::Strict(_), NumAircraftStrategy::Strict(n)) => ScheduleSearch::Fixed {
                tpd,
                num_ac: n.get(),
            },
            (TripsPerDayStrategy::Maximise, NumAircraftStrategy::Strict(n)) => ScheduleSearch::FewerTrips {
                tpd,
                num_ac: n.get(),
            },
            (TripsPerDayStrategy::Strict(_), NumAircraftStrategy::Maximise) => ScheduleSearch::MoreAircraft {
                tpd,
                num_ac: 1,
            },
            (TripsPerDayStrategy::Maximise, NumAircraftStrategy::Maximise) => ScheduleSearch::Finished(
                None,
            ),
        };
        let a = s.action();
        (s, a)
    }

    /// Take the outcome of the pending trial.
    pub fn step(self, outcome: TrialOutcome) -> (r: (ScheduleSearch, SearchAction))
        requires
            search_wf(self),
        ensures
            r.0 == search_next(self, outcome),
            search_wf(r.0),
            r.1 == action_of(r.0),
    {
        let s = match self {
            ScheduleSearch::Fixed { tpd, num_ac } => match outcome {
                TrialOutcome::NoConfig => ScheduleSearch::Finished(None),
                TrialOutcome::Found { .. } => ScheduleSearch::Finished(Some(ScheduleChoice { tpd, num_ac })),
            },
            ScheduleSearch::FewerTrips { tpd, num_ac } => match outcome {
                TrialOutcome::Found { .. } => ScheduleSearch::Finished(Some(ScheduleChoice { tpd, num_ac })),
                TrialOutcome::NoConfig => if tpd > 1 {
                    ScheduleSearch::FewerTrips { tpd: tpd - 1, num_ac }
                } else {
                    ScheduleSearch::Finished(None)
                },
            },
            ScheduleSearch::MoreAircraft { tpd, num_ac } => match outcome {
                TrialOutcome::NoConfig => if num_ac == 1 {
                    ScheduleSearch::Finished(None)
                } else {
                    ScheduleSearch::Finished(Some(ScheduleChoice { tpd, num_ac: num_ac - 1 }))
                },
                TrialOutcome::Found { keeps_income } => if num_ac > 1 && !keeps_income {
                    ScheduleSearch::Finished(Some(ScheduleChoice { tpd, num_ac: num_ac - 1 }))
                } else if num_ac < 199 {
                    ScheduleSearch::MoreAircraft { tpd, num_ac: num_ac + 1 }
                } else {
                    ScheduleSearch::Finished(Some(ScheduleChoice { tpd, num_ac }))
                },
            },
            ScheduleSearch::Finished(x) => ScheduleSearch::Finished(x),
        };
        let a = s.action();
        (s, a)
    }
}

} // verus!
