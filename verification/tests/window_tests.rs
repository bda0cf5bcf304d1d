use moabdb::window::{Window, WindowBuilder, WindowLength};

#[test]
fn explicit_range_wins_over_length() {
    let w = WindowBuilder::new()
        .start(1000)
        .end(87400)
        .length(WindowLength::Days(999))
        .build()
        .unwrap();
    assert_eq!(w, Window { start: 1000, end: 87400 });
}

#[test]
fn start_and_length_derive_end() {
    let w = WindowBuilder::new().start(0).length(WindowLength::Days(1)).build().unwrap();
    assert_eq!(w, Window { start: 0, end: 86400 });
}

#[test]
fn end_and_length_derive_start() {
    let w = WindowBuilder::new().end(86400).length(WindowLength::Days(1)).build().unwrap();
    assert_eq!(w, Window { start: 0, end: 86400 });
}

#[test]
fn reversed_range_is_rejected() {
    let r = WindowBuilder::new().start(87400).end(1000).build();
    assert_eq!(r.unwrap_err(), "Start time must be before end time".to_string());
}

#[test]
fn equal_start_and_end_is_accepted() {
    let w = WindowBuilder::new().start(5).end(5).build().unwrap();
    assert_eq!(w, Window { start: 5, end: 5 });
}

#[test]
fn empty_builder_is_rejected() {
    let r = WindowBuilder::new().build();
    assert_eq!(
        r.unwrap_err(),
        "Must provide either start and end or start and length".to_string()
    );
}

#[test]
fn start_alone_is_rejected() {
    let r = WindowBuilder::new().start(0).build();
    assert_eq!(
        r.unwrap_err(),
        "Must provide either start and end or start and length".to_string()
    );
}

#[test]
fn length_alone_anchors_at_current_time() {
    let before = chrono::Local::now().naive_local().and_utc().timestamp();
    let w = WindowBuilder::new().length(WindowLength::Days(1)).build().unwrap();
    let after = chrono::Local::now().naive_local().and_utc().timestamp();
    assert_eq!(w.end - w.start, 86400);
    assert!(before <= w.end && w.end <= after);
}

#[test]
fn each_unit_has_its_fixed_duration() {
    let units: Vec<(WindowLength, i64)> = vec![
        (WindowLength::Seconds(7), 7),
        (WindowLength::Minutes(7), 7 * 60),
        (WindowLength::Hours(7), 7 * 3600),
        (WindowLength::Days(7), 7 * 86400),
        (WindowLength::Weeks(7), 7 * 604800),
        (WindowLength::Months(7), 7 * 30 * 86400),
        (WindowLength::Years(7), 7 * 365 * 86400),
    ];
    for (l, secs) in units {
        let w = WindowBuilder::new().start(100).length(l).build().unwrap();
        assert_eq!(w, Window { start: 100, end: 100 + secs });
    }
}

#[test]
fn default_builder_is_empty() {
    assert_eq!(WindowBuilder::default(), WindowBuilder::new());
}
