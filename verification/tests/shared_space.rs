use pandemic::ids::{BuildingID, PersonID};
use pandemic::shared_space::SharedSpace;
use pandemic::time::{Duration, Time};

fn time(x: usize) -> Time {
    Time::start_of_day().add(Duration::hours(x))
}

#[test]
fn test_overlap() {
    let mut space = SharedSpace::new();
    let mut now = time(0);

    let bldg1 = BuildingID(1);
    let bldg2 = BuildingID(2);

    let person1 = PersonID(1);
    let person2 = PersonID(2);
    let person3 = PersonID(3);

    // Only one person
    space.person_enters_space(now, person1, bldg1);
    now = time(1);
    assert_eq!(
        space.person_leaves_space(now, person1, bldg1),
        Some(Vec::new())
    );

    // Two people at the same time
    now = time(2);
    space.person_enters_space(now, person1, bldg2);
    space.person_enters_space(now, person2, bldg2);
    now = time(3);
    assert_eq!(
        space.person_leaves_space(now, person1, bldg2),
        Some(vec![(person2, Duration::hours(1))])
    );

    // Bug
    assert_eq!(space.person_leaves_space(now, person3, bldg2), None);

    // Different times
    now = time(5);
    space.person_enters_space(now, person1, bldg1);
    now = time(6);
    space.person_enters_space(now, person2, bldg1);
    now = time(7);
    space.person_enters_space(now, person3, bldg1);
    now = time(10);
    assert_eq!(
        space.person_leaves_space(now, person1, bldg1),
        Some(vec![
            (person2, Duration::hours(4)),
            (person3, Duration::hours(3))
        ])
    );
    now = time(12);
    assert_eq!(
        space.person_leaves_space(now, person2, bldg1),
        Some(vec![(person3, Duration::hours(5))])
    );
}

#[test]
fn entering_and_leaving_at_once_yields_no_overlap() {
    let mut space = SharedSpace::new();
    space.person_enters_space(time(4), PersonID(1), BuildingID(1));
    assert_eq!(space.person_leaves_space(time(4), PersonID(1), BuildingID(1)), Some(Vec::new()));
    assert!(space.occupants(BuildingID(1)).is_empty());
    assert!(!space.holds(PersonID(1), BuildingID(1)));
}

#[test]
fn leaving_a_building_never_entered_is_a_fault() {
    let mut space: SharedSpace<BuildingID> = SharedSpace::new();
    assert_eq!(space.person_leaves_space(time(1), PersonID(1), BuildingID(1)), None);
    space.person_enters_space(time(1), PersonID(1), BuildingID(1));
    assert_eq!(space.person_leaves_space(time(2), PersonID(1), BuildingID(2)), None);
    assert_eq!(space.person_leaves_space(time(2), PersonID(2), BuildingID(1)), None);
    assert_eq!(space.occupants(BuildingID(1)), vec![(PersonID(1), time(1))]);
    assert_eq!(space.person_leaves_space(time(2), PersonID(1), BuildingID(1)), Some(Vec::new()));
    // Leaving twice is a fault as well.
    assert_eq!(space.person_leaves_space(time(3), PersonID(1), BuildingID(1)), None);
}

#[test]
fn three_way_overlap() {
    let mut space = SharedSpace::new();
    let b = BuildingID(1);
    space.person_enters_space(time(5), PersonID(1), b);
    space.person_enters_space(time(6), PersonID(2), b);
    space.person_enters_space(time(7), PersonID(3), b);
    assert_eq!(
        space.person_leaves_space(time(10), PersonID(1), b),
        Some(vec![(PersonID(2), Duration::hours(4)), (PersonID(3), Duration::hours(3))])
    );
    assert_eq!(space.person_leaves_space(time(12), PersonID(2), b), Some(vec![(PersonID(3), Duration::hours(5))]));
    assert_eq!(space.person_leaves_space(time(13), PersonID(3), b), Some(Vec::new()));
}

#[test]
fn the_overlap_runs_from_the_later_entry() {
    let mut space = SharedSpace::new();
    let b = BuildingID(1);
    space.person_enters_space(time(1), PersonID(1), b);
    space.person_enters_space(time(3), PersonID(2), b);
    space.person_enters_space(time(5), PersonID(3), b);
    // The second to come leaves: with the first the time since the leaver
    // came counts, with the third the time since the third came.
    assert_eq!(
        space.person_leaves_space(time(9), PersonID(2), b),
        Some(vec![(PersonID(1), Duration::hours(6)), (PersonID(3), Duration::hours(4))])
    );
}

#[test]
fn the_occupants_are_listed_in_the_order_of_entry() {
    let mut space = SharedSpace::new();
    let b = BuildingID(9);
    for (i, p) in [5usize, 3, 8, 1].iter().enumerate() {
        space.person_enters_space(time(i), PersonID(*p), b);
    }
    assert_eq!(
        space.occupants(b),
        vec![(PersonID(5), time(0)), (PersonID(3), time(1)), (PersonID(8), time(2)), (PersonID(1), time(3))]
    );
    assert_eq!(
        space.person_leaves_space(time(4), PersonID(3), b),
        Some(vec![
            (PersonID(5), Duration::hours(3)),
            (PersonID(8), Duration::hours(2)),
            (PersonID(1), Duration::hours(1))
        ])
    );
    assert!(space.holds(PersonID(8), b));
    assert!(!space.holds(PersonID(3), b));
}

#[test]
fn a_leave_before_the_entry_gives_a_negative_overlap() {
    let mut space = SharedSpace::new();
    let b = BuildingID(1);
    space.person_enters_space(time(5), PersonID(1), b);
    space.person_enters_space(time(7), PersonID(2), b);
    assert_eq!(space.person_leaves_space(time(6), PersonID(1), b), Some(vec![(PersonID(2), Duration::seconds(-3600))]));
}

#[test]
fn somebody_entered_twice_leaves_in_one_go() {
    let mut space = SharedSpace::new();
    let b = BuildingID(1);
    space.person_enters_space(time(1), PersonID(1), b);
    space.person_enters_space(time(2), PersonID(2), b);
    space.person_enters_space(time(3), PersonID(1), b);
    // The later entry counts.
    assert_eq!(space.person_leaves_space(time(5), PersonID(1), b), Some(vec![(PersonID(2), Duration::hours(2))]));
    assert_eq!(space.occupants(b), vec![(PersonID(2), time(2))]);
}

#[test]
fn spaces_are_kept_apart() {
    let mut space = SharedSpace::new();
    space.person_enters_space(time(1), PersonID(1), BuildingID(1));
    space.person_enters_space(time(1), PersonID(2), BuildingID(2));
    assert_eq!(space.person_leaves_space(time(2), PersonID(1), BuildingID(1)), Some(Vec::new()));
    assert_eq!(space.occupants(BuildingID(2)), vec![(PersonID(2), time(1))]);
}
