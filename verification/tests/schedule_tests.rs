use am4::schedule::{
    read_strategy_inputs, trips_per_aircraft, CiStrategy, NonZeroCount, NumAircraftStrategy,
    ScheduleChoice, ScheduleSearch, ScheduleStrategy, SearchAction, SortBy, StrategyInputError,
    TrialOutcome, TripsPerDayStrategy,
};

#[test]
fn strategy_defaults() {
    let s = ScheduleStrategy::default();
    assert_eq!(s.trips_per_day, TripsPerDayStrategy::Maximise);
    assert_eq!(s.num_aircraft, NumAircraftStrategy::Strict(NonZeroCount::one()));
    assert!(matches!(CiStrategy::default(), CiStrategy::Strict(c) if c.get() == 200));
    assert_eq!(SortBy::default(), SortBy::ProfitPerAcPerDay);
}

#[test]
fn strategy_fields() {
    let r = read_strategy_inputs("3", false, "", true, "150", false, "", true, true, true, true);
    assert!(!r.any_error());
    assert_eq!(r.schedule.num_aircraft, NumAircraftStrategy::Strict(NonZeroCount::new(3).unwrap()));
    assert_eq!(r.schedule.trips_per_day, TripsPerDayStrategy::Maximise);
    assert!(matches!(r.ci, CiStrategy::Strict(c) if c.get() == 150));

    let r = read_strategy_inputs("  ", false, "0", false, "201", false, "", true, true, true, true);
    assert_eq!(r.num_ac_error, Some(StrategyInputError::Required));
    assert_eq!(r.tpd_error, Some(StrategyInputError::MustBePositive));
    assert_eq!(r.ci_error, Some(StrategyInputError::CiOutOfRange));
    assert_eq!(r.num_ac_error.unwrap().message(), "Required");
    assert_eq!(r.tpd_error.unwrap().message(), "Must be > 0");
    assert_eq!(r.ci_error.unwrap().message(), "0-200");
}

#[test]
fn ci_aligns_only_with_a_flight_time_limit() {
    let r = read_strategy_inputs("1", false, "1", false, "", true, "12:00", true, true, true, true);
    assert_eq!(r.ci, CiStrategy::AlignConstraint);
    assert!(r.ci_error.is_none());
    let r = read_strategy_inputs("1", false, "1", false, "", true, " ", true, true, true, true);
    assert_eq!(r.ci_error, Some(StrategyInputError::Required));
}

#[test]
fn hidden_fields_read_as_defaults() {
    let r = read_strategy_inputs("x", false, "x", false, "x", false, "", false, false, false, false);
    assert!(!r.any_error());
    assert_eq!(r.schedule.num_aircraft, NumAircraftStrategy::Strict(NonZeroCount::one()));
    assert_eq!(r.schedule.trips_per_day, TripsPerDayStrategy::Strict(NonZeroCount::one()));
    assert!(matches!(r.ci, CiStrategy::Strict(c) if c.get() == 200));
}

#[test]
fn trips_per_aircraft_bounds() {
    assert_eq!(trips_per_aircraft(TripsPerDayStrategy::Maximise, 0), None);
    assert_eq!(trips_per_aircraft(TripsPerDayStrategy::Maximise, 5).unwrap().get(), 5);
    let three = NonZeroCount::new(3).unwrap();
    assert_eq!(trips_per_aircraft(TripsPerDayStrategy::Strict(three), 2), None);
    assert_eq!(trips_per_aircraft(TripsPerDayStrategy::Strict(three), 3), Some(three));
}

fn run(strategy: ScheduleStrategy, tpd: u8, mut answer: impl FnMut(u32) -> TrialOutcome) -> (Vec<u32>, Option<ScheduleChoice>) {
    let (mut s, mut a) = ScheduleSearch::start(strategy, NonZeroCount::new(tpd).unwrap());
    let mut tried = Vec::new();
    loop {
        match a {
            SearchAction::Try { total, .. } => {
                tried.push(total);
                let (ns, na) = s.step(answer(total));
                s = ns;
                a = na;
            }
            SearchAction::Finish(c) => return (tried, c),
        }
    }
}

#[test]
fn fewer_trips_counts_down() {
    let strategy = ScheduleStrategy {
        trips_per_day: TripsPerDayStrategy::Maximise,
        num_aircraft: NumAircraftStrategy::Strict(NonZeroCount::new(2).unwrap()),
    };
    let (tried, c) = run(strategy, 4, |total| if total <= 4 { TrialOutcome::Found { keeps_income: true } } else { TrialOutcome::NoConfig });
    assert_eq!(tried, vec![8, 6, 4]);
    assert_eq!(c, Some(ScheduleChoice { tpd: 2, num_ac: 2 }));
    let (tried, c) = run(strategy, 2, |_| TrialOutcome::NoConfig);
    assert_eq!(tried, vec![4, 2]);
    assert_eq!(c, None);
}

#[test]
fn more_aircraft_until_income_drops() {
    let strategy = ScheduleStrategy {
        trips_per_day: TripsPerDayStrategy::Strict(NonZeroCount::new(3).unwrap()),
        num_aircraft: NumAircraftStrategy::Maximise,
    };
    let (tried, c) = run(strategy, 3, |total| TrialOutcome::Found { keeps_income: total <= 9 });
    assert_eq!(tried, vec![3, 6, 9, 12]);
    assert_eq!(c, Some(ScheduleChoice { tpd: 3, num_ac: 3 }));
    let (tried, c) = run(strategy, 3, |_| TrialOutcome::NoConfig);
    assert_eq!(tried, vec![3]);
    assert_eq!(c, None);
    let (tried, c) = run(strategy, 1, |_| TrialOutcome::Found { keeps_income: true });
    assert_eq!(tried.len(), 199);
    assert_eq!(c, Some(ScheduleChoice { tpd: 1, num_ac: 199 }));
}

#[test]
fn fixed_and_unsupported_schedules() {
    let fixed = ScheduleStrategy {
        trips_per_day: TripsPerDayStrategy::Strict(NonZeroCount::new(2).unwrap()),
        num_aircraft: NumAircraftStrategy::Strict(NonZeroCount::new(3).unwrap()),
    };
    let (tried, c) = run(fixed, 2, |_| TrialOutcome::Found { keeps_income: false });
    assert_eq!(tried, vec![6]);
    assert_eq!(c, Some(ScheduleChoice { tpd: 2, num_ac: 3 }));
    let both = ScheduleStrategy {
        trips_per_day: TripsPerDayStrategy::Maximise,
        num_aircraft: NumAircraftStrategy::Maximise,
    };
    let (tried, c) = run(both, 2, |_| TrialOutcome::NoConfig);
    assert!(tried.is_empty());
    assert_eq!(c, None);
}
