use safe_drive::delta_list::DeltaList;

/// Inserting one timer and popping it returns it unchanged.
#[test]
fn single_insert_pop_round_trip() {
    let mut dl: DeltaList<&str> = DeltaList::new();
    assert!(dl.is_empty());
    dl.insert(5, "head");
    assert_eq!(dl.len(), 1);
    assert!(matches!(dl.front_delta(), Some(5)));
    let popped = dl.pop();
    assert!(matches!(popped, Some((5, "head"))));
    assert!(dl.is_empty());
    assert!(dl.pop().is_none());
}

/// Delays are stored relative to the predecessor: absolute deadlines
/// 10, 20, 30 become relative delays 10, 10, 10 whatever the insertion
/// order.
#[test]
fn relative_delays_from_any_order() {
    let mut dl: DeltaList<u32> = DeltaList::new();
    dl.insert(30, 3);
    dl.insert(10, 1);
    dl.insert(20, 2);
    assert_eq!(dl.len(), 3);
    assert_eq!(dl.pop(), Some((10, 1)));
    assert_eq!(dl.pop(), Some((10, 2)));
    assert_eq!(dl.pop(), Some((10, 3)));
    assert_eq!(dl.pop(), None);
}

/// The prefix sum of delays up to each entry equals its absolute
/// deadline minus the base instant, after every insertion.
#[test]
fn prefix_sums_are_deadlines() {
    let mut dl: DeltaList<&str> = DeltaList::new();
    dl.insert(100, "c");
    dl.insert(40, "a");
    dl.insert(70, "b");
    dl.insert(100, "d");
    let mut sum: u64 = 0;
    let mut deadlines = Vec::new();
    while let Some((delay, tag)) = dl.pop() {
        sum += delay;
        deadlines.push((sum, tag));
    }
    assert_eq!(deadlines, vec![(40, "a"), (70, "b"), (100, "c"), (100, "d")]);
}

/// Entries with equal deadlines stay in arrival order.
#[test]
fn equal_deadlines_keep_arrival_order() {
    let mut dl: DeltaList<&str> = DeltaList::new();
    dl.insert(10, "first");
    dl.insert(10, "second");
    dl.insert(10, "third");
    assert_eq!(dl.pop(), Some((10, "first")));
    assert_eq!(dl.pop(), Some((0, "second")));
    assert_eq!(dl.pop(), Some((0, "third")));
}

/// An insertion before the head charges the displaced head with the
/// difference, so the head's old deadline stands.
#[test]
fn insert_before_head_preserves_successor_deadline() {
    let mut dl: DeltaList<&str> = DeltaList::new();
    dl.insert(50, "late");
    dl.insert(20, "early");
    assert_eq!(dl.pop(), Some((20, "early")));
    assert_eq!(dl.pop(), Some((30, "late")));
}
