use iot_telemetry::store::{lookup_channel, AppState, Channel, Measurement, StoreError, Variables};
use iot_telemetry::IOTApp;

#[test]
fn new_store_is_empty() {
    let v = Variables::new();
    assert_eq!(v.bpm.len(), 0);
    assert_eq!(v.temperature.len(), 0);
    assert_eq!(v.oximetry.len(), 0);
}

#[test]
fn measurement_new_keeps_fields() {
    let m = Measurement::new(1234, 80.0f32.to_bits());
    assert_eq!(m.timestamp, 1234);
    assert_eq!(f32::from_bits(m.value), 80.0f32);
}

#[test]
fn lookup_resolves_the_fixed_set() {
    assert_eq!(lookup_channel("bpm"), Some(Channel::Bpm));
    assert_eq!(lookup_channel("temperature"), Some(Channel::Temperature));
    assert_eq!(lookup_channel("oximetry"), Some(Channel::Oximetry));
    assert_eq!(lookup_channel("pulse"), None);
    assert_eq!(lookup_channel(""), None);
    assert_eq!(lookup_channel("BPM"), None);
}

#[test]
fn unknown_channel_fails_and_mutates_nothing() {
    let mut v = Variables::new();
    v.append("bpm", 72.0f32.to_bits(), 10).unwrap();
    let before_bpm = v.bpm.clone();
    let r = v.append("pulse", 99.0f32.to_bits(), 11);
    assert_eq!(r, Err(StoreError::UnknownChannel));
    assert_eq!(v.bpm.len(), 1);
    assert_eq!(v.temperature.len(), 0);
    assert_eq!(v.oximetry.len(), 0);
    assert_eq!(v.bpm, before_bpm);
}

#[test]
fn appends_accumulate_without_loss() {
    let mut v = Variables::new();
    for i in 0..100u64 {
        v.append("bpm", 60.0f32.to_bits(), i).unwrap();
    }
    assert_eq!(v.bpm.len(), 100);
    for i in 0..100u64 {
        assert_eq!(v.bpm[i as usize].timestamp, i);
    }
}

#[test]
fn one_reading_per_channel() {
    // Three independent callers each append one reading; afterwards the
    // snapshot holds exactly one measurement per channel, with the given
    // value and its own append time.
    let state = AppState::new();
    state.append("bpm", 72.0f32.to_bits(), 100).unwrap();
    state.append("temperature", 36.6f32.to_bits(), 101).unwrap();
    state.append("oximetry", 98.0f32.to_bits(), 102).unwrap();

    let s = state.snapshot();
    assert_eq!(s.bpm.len(), 1);
    assert_eq!(s.temperature.len(), 1);
    assert_eq!(s.oximetry.len(), 1);
    assert_eq!(f32::from_bits(s.bpm[0].value), 72.0f32);
    assert_eq!(f32::from_bits(s.temperature[0].value), 36.6f32);
    assert_eq!(f32::from_bits(s.oximetry[0].value), 98.0f32);
    assert_eq!(s.bpm[0].timestamp, 100);
    assert_eq!(s.temperature[0].timestamp, 101);
    assert_eq!(s.oximetry[0].timestamp, 102);

    // Further appends keep each channel's timestamps non-decreasing when the
    // receipt clock is monotone.
    state.append("bpm", 75.0f32.to_bits(), 200).unwrap();
    state.append("bpm", 71.0f32.to_bits(), 300).unwrap();
    let s2 = state.snapshot();
    for w in s2.bpm.windows(2) {
        assert!(w[0].timestamp <= w[1].timestamp);
    }
}

#[test]
fn snapshots_are_independent_copies() {
    let state = AppState::new();
    state.append("bpm", 80.0f32.to_bits(), 0).unwrap();
    let s1 = state.snapshot();
    assert_eq!(s1.bpm.len(), 1);

    state.append("bpm", 82.0f32.to_bits(), 1).unwrap();
    let s2 = state.snapshot();
    assert_eq!(s2.bpm.len(), 2);

    // The second append left the first snapshot untouched.
    assert_eq!(s1.bpm.len(), 1);
    assert_eq!(f32::from_bits(s1.bpm[0].value), 80.0f32);
    assert_eq!(f32::from_bits(s2.bpm[1].value), 82.0f32);
}

#[test]
fn snapshot_after_append_contains_it() {
    let state = AppState::new();
    state.append("temperature", 36.6f32.to_bits(), 42).unwrap();
    let s = state.snapshot();
    let last = s.temperature.last().unwrap();
    assert_eq!(last.timestamp, 42);
    assert_eq!(f32::from_bits(last.value), 36.6f32);
}

#[test]
fn snapshot_lengths_never_shrink() {
    let state = AppState::new();
    let mut prev = state.snapshot();
    for i in 0..10u64 {
        state.append("oximetry", 97.0f32.to_bits(), i).unwrap();
        let next = state.snapshot();
        assert!(next.bpm.len() >= prev.bpm.len());
        assert!(next.temperature.len() >= prev.temperature.len());
        assert!(next.oximetry.len() >= prev.oximetry.len());
        prev = next;
    }
}

#[test]
fn record_all_is_one_reading_per_channel() {
    let state = AppState::new();
    state.record_all(
        90.6f32.to_bits(),
        30.1f32.to_bits(),
        97.0f32.to_bits(),
        1000,
    );
    let s = state.snapshot();
    assert_eq!(s.bpm.len(), 1);
    assert_eq!(s.temperature.len(), 1);
    assert_eq!(s.oximetry.len(), 1);
    assert_eq!(f32::from_bits(s.bpm[0].value), 90.6f32);
    assert_eq!(f32::from_bits(s.temperature[0].value), 30.1f32);
    assert_eq!(f32::from_bits(s.oximetry[0].value), 97.0f32);
    assert_eq!(s.bpm[0].timestamp, 1000);
    assert_eq!(s.temperature[0].timestamp, 1000);
    assert_eq!(s.oximetry[0].timestamp, 1000);
}

#[test]
fn unknown_channel_on_shared_store() {
    let state = AppState::new();
    let r = state.append("heartrate", 70.0f32.to_bits(), 5);
    assert_eq!(r, Err(StoreError::UnknownChannel));
    let s = state.snapshot();
    assert_eq!(s.bpm.len(), 0);
    assert_eq!(s.temperature.len(), 0);
    assert_eq!(s.oximetry.len(), 0);
}

#[test]
fn app_config_keeps_port() {
    let app = IOTApp::new(8080);
    assert_eq!(app.port(), 8080);
}
