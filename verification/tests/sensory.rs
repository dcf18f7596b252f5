use nimora_core::{
    battery_sensory_band, battery_should_emit, idle_sensory_band, idle_sensory_band_from_ms,
    idle_should_emit, meeting_hint_label, meeting_should_emit, notification_should_emit,
    notification_unread_from_counts, sanitize_idle_ms, BooleanSensorGate, MeetingHint,
    PowerState, BATTERY_BAND_CHARGING, BATTERY_BAND_CRITICAL, BATTERY_BAND_LOW, BATTERY_BAND_OK,
    BATTERY_BAND_UNKNOWN, BATTERY_SAME_BAND_THROTTLE_MS, BOOLEAN_SENSOR_HOLD_MS,
    IDLE_BAND_ACTIVE, IDLE_BAND_APPROACH, IDLE_BAND_NOTICE, IDLE_BAND_REST,
};

#[test]
fn battery_bands_cover_critical_low_charging() {
    assert_eq!(battery_sensory_band(None), BATTERY_BAND_UNKNOWN);
    assert_eq!(
        battery_sensory_band(Some(&PowerState {
            on_battery: true,
            battery_percent: Some(8),
            charging: false,
        })),
        BATTERY_BAND_CRITICAL
    );
    assert_eq!(
        battery_sensory_band(Some(&PowerState {
            on_battery: true,
            battery_percent: Some(15),
            charging: false,
        })),
        BATTERY_BAND_LOW
    );
    assert_eq!(
        battery_sensory_band(Some(&PowerState {
            on_battery: true,
            battery_percent: Some(15),
            charging: true,
        })),
        BATTERY_BAND_CHARGING
    );
    assert_eq!(
        battery_sensory_band(Some(&PowerState {
            on_battery: false,
            battery_percent: Some(50),
            charging: false,
        })),
        BATTERY_BAND_OK
    );
}

#[test]
fn battery_emit_rules_throttle_same_band() {
    assert!(battery_should_emit(0, BATTERY_BAND_CRITICAL, 0, 1_000));
    assert!(!battery_should_emit(
        BATTERY_BAND_CRITICAL,
        BATTERY_BAND_CRITICAL,
        1_000,
        2_000
    ));
    assert!(battery_should_emit(
        BATTERY_BAND_CRITICAL,
        BATTERY_BAND_CRITICAL,
        1_000,
        1_000 + BATTERY_SAME_BAND_THROTTLE_MS
    ));
    assert!(battery_should_emit(
        BATTERY_BAND_CRITICAL,
        BATTERY_BAND_CHARGING,
        1_000,
        1_100
    ));
    assert!(!battery_should_emit(0, BATTERY_BAND_UNKNOWN, 0, 1_000));
}

#[test]
fn idle_bands_and_emit_only_rise() {
    assert_eq!(idle_sensory_band(0), IDLE_BAND_ACTIVE);
    assert_eq!(idle_sensory_band(90), IDLE_BAND_NOTICE);
    assert_eq!(idle_sensory_band(5 * 60), IDLE_BAND_APPROACH);
    assert_eq!(idle_sensory_band(30 * 60), IDLE_BAND_REST);
    assert!(idle_should_emit(0, 1));
    assert!(!idle_should_emit(2, 1));
    assert!(!idle_should_emit(2, 2));
}

#[test]
fn meeting_edge_and_boolean_gate_hold() {
    assert!(meeting_should_emit(false, true));
    assert!(meeting_should_emit(true, false));
    assert!(!meeting_should_emit(true, true));

    let gate = BooleanSensorGate::new(100);
    let (gate, emit) = gate.observe(true, 0);
    assert_eq!(emit, None);
    let (gate, emit) = gate.observe(true, 50);
    assert_eq!(emit, None);
    let (gate, emit) = gate.observe(true, 100);
    assert_eq!(emit, Some(true));
    let (gate, emit) = gate.observe(true, 200);
    assert_eq!(emit, None);
    let (gate, emit) = gate.observe(false, 200);
    assert_eq!(emit, None);
    let (_gate, emit) = gate.observe(false, 300);
    assert_eq!(emit, Some(false));
}

#[test]
fn notification_should_emit_edges() {
    assert!(notification_should_emit(false, true));
    assert!(notification_should_emit(true, false));
    assert!(!notification_should_emit(true, true));
    assert!(!notification_should_emit(false, false));
}

#[test]
fn notification_unread_from_counts_privacy_safe() {
    assert!(!notification_unread_from_counts(0, 0, 0));
    assert!(notification_unread_from_counts(1, 0, 0));
    assert!(notification_unread_from_counts(0, 2, 0));
    assert!(notification_unread_from_counts(0, 0, 3));
}

#[test]
fn idle_from_ms_and_sanitize() {
    assert_eq!(idle_sensory_band_from_ms(89_999), IDLE_BAND_ACTIVE);
    assert_eq!(idle_sensory_band_from_ms(90_000), IDLE_BAND_NOTICE);
    assert_eq!(sanitize_idle_ms(u64::MAX), 604_800_000);
    assert_eq!(sanitize_idle_ms(5), 5);
}

#[test]
fn battery_same_ok_band_never_re_emits() {
    assert!(!battery_should_emit(BATTERY_BAND_OK, BATTERY_BAND_OK, 0, u64::MAX));
    assert!(!battery_should_emit(BATTERY_BAND_OK, BATTERY_BAND_CHARGING + 1, 0, 10));
    assert!(battery_should_emit(BATTERY_BAND_LOW, BATTERY_BAND_OK, 0, 10));
    assert!(!battery_should_emit(BATTERY_BAND_LOW, BATTERY_BAND_LOW, 5_000, 10));
}

#[test]
fn meeting_labels_are_compact() {
    assert_eq!(meeting_hint_label(MeetingHint::Zoom), "zoom");
    assert_eq!(meeting_hint_label(MeetingHint::Teams), "teams");
    assert_eq!(meeting_hint_label(MeetingHint::Meet), "meet");
    assert_eq!(meeting_hint_label(MeetingHint::Webex), "webex");
    assert_eq!(meeting_hint_label(MeetingHint::Unknown), "unknown");
    assert_eq!(meeting_hint_label(MeetingHint::NoHint), "");
}

#[test]
fn gate_default_hold_and_force() {
    let gate = BooleanSensorGate::default();
    assert_eq!(gate.published(), None);
    let (gate, emit) = gate.observe(true, 0);
    assert_eq!(emit, None);
    let (gate, emit) = gate.observe(true, BOOLEAN_SENSOR_HOLD_MS - 1);
    assert_eq!(emit, None);
    let (gate, emit) = gate.observe(true, BOOLEAN_SENSOR_HOLD_MS);
    assert_eq!(emit, Some(true));
    let forced = gate.force(false);
    assert_eq!(forced.published(), Some(false));
    let (_, emit) = forced.observe(false, 0);
    assert_eq!(emit, None);
}
