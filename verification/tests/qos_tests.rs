use safe_drive::qos::{Durability, History, Liveliness, Profile, Reliability};

#[test]
fn default_profile_values() {
    let p = Profile::new();
    assert_eq!(p.reliability, Reliability::Reliable);
    assert_eq!(p.durability, Durability::Volatile);
    assert_eq!(p.history, History::KeepLast);
    assert_eq!(p.depth, 10);
    assert_eq!(p.deadline, None);
    assert_eq!(p.lifespan, None);
    assert_eq!(p.liveliness, Liveliness::Automatic);
    assert_eq!(p.liveliness_lease, None);
    assert_eq!(Profile::default(), p);
    assert_eq!(Profile::system_default(), p);
    assert_eq!(Profile::services_default(), p);
}

#[test]
fn sensor_profile_values() {
    let p = Profile::sensor();
    assert_eq!(p.reliability, Reliability::BestEffort);
    assert_eq!(p.history, History::KeepLast);
    assert_eq!(p.depth, 5);
    assert_eq!(p.durability, Durability::Volatile);
}

#[test]
fn parameter_profile_values() {
    let p = Profile::parameter();
    assert_eq!(p.reliability, Reliability::Reliable);
    assert_eq!(p.depth, 1000);
    assert_eq!(p.history, History::KeepLast);
    let e = Profile::parameter_events();
    assert_eq!(e.history, History::KeepAll);
    assert_eq!(e.depth, 1000);
}
