use intel_candidate_app::time::time_part;

#[test]
fn time_part_of_epoch_and_known_instants() {
    let epoch = time_part(0);
    assert_eq!(epoch.event_date, "1970-01-01");
    assert_eq!(epoch.hour, 0);
    let day = time_part(86_400_000);
    assert_eq!(day.event_date, "1970-01-02");
    let t = time_part(1_780_058_096_000);
    assert_eq!(t.event_date, "2026-05-29");
    assert_eq!(t.hour, 12);
    assert_eq!(time_part(951_782_400_000).event_date, "2000-02-29");
    assert_eq!(time_part(4_107_542_400_000).event_date, "2100-03-01");
}

#[test]
fn time_part_before_the_epoch() {
    let t = time_part(-1);
    assert_eq!(t.event_date, "1969-12-31");
    assert_eq!(t.hour, 23);
    assert_eq!(time_part(-86_400_000).event_date, "1969-12-31");
    assert_eq!(time_part(-86_400_001).event_date, "1969-12-30");
    assert_eq!(time_part(-62_135_596_800_000).event_date, "0001-01-01");
    assert_eq!(time_part(-62_135_596_800_001).event_date, "0000-12-31");
}
