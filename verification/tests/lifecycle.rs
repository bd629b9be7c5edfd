use aimt::lifecycle::can_transition;
use aimt::types::VmState;
use aimt::types::VmState::{
    Building, Destroyed, Faulted, Leased, Paused, Ready, Running, Scrubbing, Snapshotting, Warming,
};

const ALL: [VmState; 10] =
    [Building, Warming, Ready, Leased, Running, Scrubbing, Snapshotting, Faulted, Paused, Destroyed];

#[test]
fn valid_transitions() {
    for (a, b) in [
        (Building, Warming), (Warming, Ready), (Ready, Leased), (Leased, Running),
        (Running, Scrubbing), (Scrubbing, Ready), (Running, Paused), (Paused, Running),
        (Faulted, Warming), (Ready, Destroyed),
    ] {
        assert!(can_transition(a, b), "{a:?}->{b:?} seharusnya valid");
    }
}

#[test]
fn invalid_transitions() {
    for (a, b) in [
        (Destroyed, Running), (Ready, Running), (Building, Ready),
        (Running, Ready), (Leased, Ready),
    ] {
        assert!(!can_transition(a, b), "{a:?}->{b:?} seharusnya dilarang");
    }
}

#[test]
fn destroyed_is_terminal_and_building_initial() {
    for s in ALL {
        assert!(!can_transition(Destroyed, s));
        assert!(!can_transition(s, Building));
        assert!(!can_transition(s, s));
    }
}

#[test]
fn transition_table_has_twenty_edges() {
    let mut n = 0;
    for a in ALL {
        for b in ALL {
            if can_transition(a, b) {
                n += 1;
            }
        }
    }
    assert_eq!(n, 20);
}
