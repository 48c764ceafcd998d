use lazy_mmdb::config::Config;
use lazy_mmdb::dataset::{Dataset, LoadError};
use lazy_mmdb::kind::DatasetKind;
use lazy_mmdb::refresh::{
    AbsenceReason, FetchError, FetchOutcome, FileRead, RefreshResult, SchedulerAction,
    SchedulerEvent, SchedulerState, acquire_dataset, cycle_ready, fetch_needed, scheduler_step,
    status_to_fetch,
};
use lazy_mmdb::state::{DatasetSet, LookupOutcome, SharedState};

fn test_config() -> Config {
    Config {
        socket_path: String::from("/tmp/geo.sock"),
        db_path: String::from("/tmp/geo"),
        tmp_path: String::from("/tmp/geo/tmp"),
        update_interval_secs: 86400,
        asn_db_url: String::from("http://example.test/asn.mmdb"),
        city_db_url: String::from("http://example.test/city.mmdb"),
        country_db_url: String::from("http://example.test/country.mmdb"),
    }
}

#[test]
fn config_selects_url_by_kind() {
    let c = test_config();
    assert_eq!(c.url_of(DatasetKind::Asn), "http://example.test/asn.mmdb");
    assert_eq!(c.url_of(DatasetKind::City), "http://example.test/city.mmdb");
    assert_eq!(c.url_of(DatasetKind::Country), "http://example.test/country.mmdb");
}

#[test]
fn kind_selects_file_name() {
    assert_eq!(DatasetKind::Asn.file_name(), "GeoLite2-ASN.mmdb");
    assert_eq!(DatasetKind::City.file_name(), "GeoLite2-City.mmdb");
    assert_eq!(DatasetKind::Country.file_name(), "GeoLite2-Country.mmdb");
}

#[test]
fn fetch_only_when_absent() {
    assert!(fetch_needed(false));
    assert!(!fetch_needed(true));
}

#[test]
fn scheduler_startup_begins_cycle_at_once() {
    let r = scheduler_step(SchedulerState::Idle, SchedulerEvent::Startup, 7);
    assert_eq!(r, (SchedulerState::Refreshing, SchedulerAction::BeginCycle));
}

#[test]
fn scheduler_completion_arms_timer() {
    let r = scheduler_step(SchedulerState::Refreshing, SchedulerEvent::CycleComplete, 86400);
    assert_eq!(r, (SchedulerState::Idle, SchedulerAction::ArmTimer(86400)));
}

#[test]
fn scheduler_timer_expiry_begins_cycle() {
    let r = scheduler_step(SchedulerState::Idle, SchedulerEvent::TimerExpired, 7);
    assert_eq!(r, (SchedulerState::Refreshing, SchedulerAction::BeginCycle));
}

#[test]
fn scheduler_ignores_stray_events() {
    let r = scheduler_step(SchedulerState::Refreshing, SchedulerEvent::TimerExpired, 7);
    assert_eq!(r, (SchedulerState::Refreshing, SchedulerAction::Hold));
    let r = scheduler_step(SchedulerState::Idle, SchedulerEvent::CycleComplete, 7);
    assert_eq!(r, (SchedulerState::Idle, SchedulerAction::Hold));
}

#[test]
fn failed_fetch_is_recorded_without_loading() {
    let r = acquire_dataset(
        FetchOutcome::Failed(FetchError::Http(500)),
        FileRead::Contents(vec![1, 2, 3]),
    );
    assert!(matches!(
        r,
        RefreshResult::Absent(AbsenceReason::FetchFailed(FetchError::Http(500)))
    ));
}

#[test]
fn missing_file_loads_as_not_found() {
    let r = acquire_dataset(FetchOutcome::AlreadyPresent, FileRead::Missing);
    assert!(matches!(r, RefreshResult::Absent(AbsenceReason::LoadFailed(LoadError::NotFound))));
}

#[test]
fn unreadable_file_loads_as_corrupt() {
    let r = acquire_dataset(FetchOutcome::Fetched, FileRead::Unreadable);
    assert!(matches!(r, RefreshResult::Absent(AbsenceReason::LoadFailed(LoadError::Corrupt))));
}

#[test]
fn invalid_bytes_load_as_corrupt_after_fetch() {
    let r = acquire_dataset(FetchOutcome::Fetched, FileRead::Contents(vec![0u8; 64]));
    assert!(matches!(r, RefreshResult::Absent(AbsenceReason::LoadFailed(LoadError::Corrupt))));
}

#[test]
fn status_classification_follows_success_range() {
    assert!(status_to_fetch(200).is_ok());
    assert!(status_to_fetch(204).is_ok());
    assert!(status_to_fetch(299).is_ok());
    assert!(matches!(status_to_fetch(500), Err(FetchError::Http(500))));
    assert!(matches!(status_to_fetch(404), Err(FetchError::Http(404))));
    assert!(matches!(status_to_fetch(301), Err(FetchError::Http(301))));
    assert!(matches!(status_to_fetch(199), Err(FetchError::Http(199))));
}

#[test]
fn cycle_runs_only_with_both_directories() {
    assert!(cycle_ready(true, true));
    assert!(!cycle_ready(false, true));
    assert!(!cycle_ready(true, false));
    assert!(!cycle_ready(false, false));
}

#[test]
fn bare_marker_image_is_rejected_not_fatal() {
    let marker = b"\xab\xcd\xefMaxMind.com".to_vec();
    assert!(matches!(Dataset::from_bytes(marker), Err(LoadError::Corrupt)));
}

#[test]
fn oversized_tree_claim_is_rejected_not_fatal() {
    let mut image = vec![0u8; 32];
    image.extend_from_slice(b"\xab\xcd\xefMaxMind.com");
    // metadata that claims a search tree far larger than the buffer
    image.extend_from_slice(&[
        0xe9, 0x5b, b'b', b'i', b'n', b'a', b'r', b'y', b'_', b'f', b'o', b'r', b'm', b'a', b't',
        b'_', b'm', b'a', b'j', b'o', b'r', b'_', b'v', b'e', b'r', b's', b'i', b'o', b'n', 0xa1,
        0x02,
    ]);
    image.extend_from_slice(&[
        0x5b, b'b', b'i', b'n', b'a', b'r', b'y', b'_', b'f', b'o', b'r', b'm', b'a', b't', b'_',
        b'm', b'i', b'n', b'o', b'r', b'_', b'v', b'e', b'r', b's', b'i', b'o', b'n', 0xa0,
    ]);
    image.extend_from_slice(&[0x4b, b'b', b'u', b'i', b'l', b'd', b'_', b'e', b'p', b'o', b'c', b'h', 0x00, 0x02]);
    image.extend_from_slice(&[
        0x4d, b'd', b'a', b't', b'a', b'b', b'a', b's', b'e', b'_', b't', b'y', b'p', b'e', 0x44,
        b'T', b'e', b's', b't',
    ]);
    image.extend_from_slice(&[0x4b, b'd', b'e', b's', b'c', b'r', b'i', b'p', b't', b'i', b'o', b'n', 0xe0]);
    image.extend_from_slice(&[0x4a, b'i', b'p', b'_', b'v', b'e', b'r', b's', b'i', b'o', b'n', 0xa1, 0x04]);
    image.extend_from_slice(&[0x49, b'l', b'a', b'n', b'g', b'u', b'a', b'g', b'e', b's', 0x00, 0x04]);
    image.extend_from_slice(&[
        0x4a, b'n', b'o', b'd', b'e', b'_', b'c', b'o', b'u', b'n', b't', 0xc4, 0x7f, 0xff, 0xff,
        0xff,
    ]);
    image.extend_from_slice(&[0x4b, b'r', b'e', b'c', b'o', b'r', b'd', b'_', b's', b'i', b'z', b'e', 0xa1, 0x20]);
    assert!(matches!(Dataset::from_bytes(image), Err(LoadError::Corrupt)));
}

#[test]
fn garbage_bytes_load_as_corrupt() {
    let r = Dataset::from_bytes(vec![1, 2, 3, 4, 5]);
    assert!(matches!(r, Err(LoadError::Corrupt)));
}

#[test]
fn fresh_state_is_unavailable_for_every_kind() {
    let state = SharedState::new();
    for kind in [DatasetKind::Asn, DatasetKind::City, DatasetKind::Country] {
        assert!(matches!(state.lookup(kind, b"128.0.0.1"), LookupOutcome::Unavailable));
    }
}

#[test]
fn unparseable_address_is_invalid_before_anything_else() {
    let state = SharedState::new();
    assert!(matches!(state.lookup(DatasetKind::Asn, b"not an ip"), LookupOutcome::Invalid));
    assert!(matches!(state.lookup(DatasetKind::City, b"1.2.3"), LookupOutcome::Invalid));
    assert!(matches!(state.lookup(DatasetKind::Country, b""), LookupOutcome::Invalid));
}

#[test]
fn cycle_set_takes_each_field_from_its_own_result() {
    let set = DatasetSet::of_results(
        RefreshResult::Absent(AbsenceReason::FetchFailed(FetchError::Io)),
        RefreshResult::Absent(AbsenceReason::LoadFailed(LoadError::Corrupt)),
        RefreshResult::Absent(AbsenceReason::LoadFailed(LoadError::NotFound)),
    );
    assert!(set.get(DatasetKind::Asn).is_none());
    assert!(set.get(DatasetKind::City).is_none());
    assert!(set.get(DatasetKind::Country).is_none());
}
