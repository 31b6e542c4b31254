use am4::stopover::{Stopover, StopoverCandidate, StopoverLimits};

fn cand(idx: usize, rwy: u16, inbound: u32, outbound: u32) -> StopoverCandidate {
    StopoverCandidate { idx, rwy, inbound, outbound, total: inbound + outbound }
}

fn limits(realism: bool) -> StopoverLimits {
    StopoverLimits { origin: 0, destination: 1, realism, aircraft_rwy: 3000, range: 1000, min_leg: 100 }
}

#[test]
fn shortest_total_wins() {
    let cs = vec![
        cand(0, 9000, 0, 500),
        cand(1, 9000, 500, 0),
        cand(2, 9000, 600, 600),
        cand(3, 9000, 400, 500),
        cand(4, 9000, 450, 450),
        cand(5, 9000, 50, 300),
        cand(6, 9000, 300, 1200),
    ];
    assert_eq!(Stopover::find_by_efficiency(&cs, &limits(false), u32::MAX), Some((Stopover(3), 900)));
    assert_eq!(Stopover::find_by_efficiency(&cs, &limits(false), 900), None);
}

#[test]
fn shortest_total_needs_legs_shorter_than_range() {
    let cs = vec![cand(2, 9000, 1000, 200), cand(3, 9000, 300, 1000)];
    assert_eq!(Stopover::find_by_efficiency(&cs, &limits(false), u32::MAX), None);
    let cs = vec![cand(2, 9000, 1000, 200), cand(3, 9000, 999, 999)];
    assert_eq!(Stopover::find_by_efficiency(&cs, &limits(false), u32::MAX), Some((Stopover(1), 1998)));
}

#[test]
fn runway_only_counts_in_realism() {
    let cs = vec![cand(2, 2000, 300, 300), cand(3, 3000, 400, 400)];
    assert_eq!(Stopover::find_by_efficiency(&cs, &limits(false), u32::MAX), Some((Stopover(0), 600)));
    assert_eq!(Stopover::find_by_efficiency(&cs, &limits(true), u32::MAX), Some((Stopover(1), 800)));
    let short = vec![cand(2, 2000, 300, 300)];
    assert_eq!(Stopover::find_by_efficiency(&short, &limits(true), u32::MAX), None);
}

#[test]
fn target_distance_closest_below() {
    let cs = vec![
        cand(2, 9000, 500, 500),
        cand(3, 9000, 700, 600),
        cand(4, 9000, 600, 600),
        cand(5, 9000, 550, 600),
    ];
    assert_eq!(
        Stopover::find_by_target_distance_lt(&cs, &limits(false), 1250, 100),
        Some((Stopover(2), 1200))
    );
    assert_eq!(Stopover::find_by_target_distance_lt(&cs, &limits(false), 900, 100), None);
}

#[test]
fn target_distance_takes_the_closest_even_when_another_is_near() {
    let cs = vec![cand(2, 9000, 500, 500), cand(3, 9000, 600, 599), cand(4, 9000, 600, 600)];
    assert_eq!(
        Stopover::find_by_target_distance_lt(&cs, &limits(false), 1200, 100),
        Some((Stopover(2), 1200))
    );
    let tie = vec![cand(2, 9000, 600, 600), cand(3, 9000, 600, 600)];
    assert_eq!(
        Stopover::find_by_target_distance_lt(&tie, &limits(false), 1200, 100),
        Some((Stopover(0), 1200))
    );
    let at_range = vec![cand(2, 9000, 1000, 100)];
    assert_eq!(
        Stopover::find_by_target_distance_lt(&at_range, &limits(false), 1200, 100),
        Some((Stopover(0), 1100))
    );
}
