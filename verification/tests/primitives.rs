use lifetra::{EntityId, Timestamp, TimeWindow};

#[test]
fn timestamp_exposes_epoch_seconds() {
    let timestamp = Timestamp::new(123);

    assert_eq!(timestamp.epoch_seconds(), 123);
}

#[test]
fn entity_id_keeps_its_text_and_windows_measure_duration() {
    let id = EntityId::new("entity-1");
    assert_eq!(id.as_str(), "entity-1");
    let window = TimeWindow::new(Timestamp::new(10), Timestamp::new(70));
    assert_eq!(window.duration_seconds(), 60);
}
