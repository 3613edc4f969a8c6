use fluminurs_desktop::data::{DataItems, FetchStatus};
use fluminurs_desktop::merge::merge_resources;
use fluminurs_desktop::resource::{DownloadStatus, ResourceState};
use fluminurs_desktop::time::Timestamp;

type State = ResourceState<&'static str>;

fn seen(module_id: &str, path: &str, secs: u64, handle: Option<&'static str>) -> State {
    ResourceState {
        module_id: module_id.to_string(),
        path: path.to_string(),
        last_updated: Timestamp::new(secs, 0),
        download_path: None,
        download_time: None,
        resource: handle,
        download_status: DownloadStatus::Idle,
    }
}

fn downloaded(module_id: &str, path: &str, secs: u64, at: u64) -> State {
    let mut state = seen(module_id, path, secs, None);
    state.download_path = Some(path.to_string());
    state.download_time = Some(Timestamp::new(at, 0));
    state
}

fn batch(secs: u64, items: Vec<State>) -> DataItems<State> {
    DataItems::new(Timestamp::new(secs, 0), items)
}

fn keys(items: &DataItems<State>) -> Vec<(String, String, u64)> {
    items
        .items
        .iter()
        .map(|r| (r.module_id.clone(), r.path.clone(), r.last_updated.secs_since_epoch))
        .collect()
}

fn key(module_id: &str, path: &str, secs: u64) -> (String, String, u64) {
    (module_id.to_string(), path.to_string(), secs)
}

#[test]
fn resources_merge_scenario_refetch_of_downloaded_file() {
    let mut stored = batch(100, vec![downloaded("10", "a.pdf", 100, 150)]);
    let incoming = batch(200, vec![seen("10", "a.pdf", 200, None)]);
    merge_resources(&mut stored, incoming);
    assert_eq!(stored.items.len(), 1);
    let merged = &stored.items[0];
    assert_eq!(merged.module_id, "10");
    assert_eq!(merged.path, "a.pdf");
    assert_eq!(merged.last_updated, Timestamp::new(200, 0));
    assert_eq!(merged.download_path, Some("a.pdf".to_string()));
    assert_eq!(merged.download_time, Some(Timestamp::new(150, 0)));
}

#[test]
fn resources_merge_takes_envelope_of_incoming() {
    let mut stored = batch(100, vec![]);
    stored.fetch_status = FetchStatus::Fetching;
    merge_resources(&mut stored, batch(7, vec![]));
    assert_eq!(stored.last_updated, Timestamp::new(7, 0));
    assert_eq!(stored.fetch_status, FetchStatus::Idle);
    assert!(stored.items.is_empty());
}

#[test]
fn resources_merge_download_metadata_survives_with_new_handle() {
    let mut stored = batch(100, vec![downloaded("10", "dir/a.pdf", 100, 110)]);
    let incoming = batch(300, vec![seen("10", "dir/a.pdf", 300, Some("fresh"))]);
    merge_resources(&mut stored, incoming);
    assert_eq!(keys(&stored), vec![key("10", "dir/a.pdf", 300)]);
    assert_eq!(stored.items[0].download_path, Some("dir/a.pdf".to_string()));
    assert_eq!(stored.items[0].download_time, Some(Timestamp::new(110, 0)));
    assert_eq!(stored.items[0].resource, Some("fresh"));
}

#[test]
fn resources_merge_retains_what_incoming_lacks() {
    let mut stored = batch(
        100,
        vec![downloaded("10", "gone.pdf", 100, 120), seen("10", "kept.pdf", 90, Some("h"))],
    );
    let incoming = batch(200, vec![seen("11", "new.pdf", 200, Some("n"))]);
    merge_resources(&mut stored, incoming);
    assert_eq!(
        keys(&stored),
        vec![key("10", "gone.pdf", 100), key("10", "kept.pdf", 90), key("11", "new.pdf", 200)]
    );
    assert_eq!(stored.items[0].download_path, Some("gone.pdf".to_string()));
    assert_eq!(stored.items[0].download_time, Some(Timestamp::new(120, 0)));
    assert_eq!(stored.items[0].resource, None);
    assert_eq!(stored.items[1].resource, Some("h"));
}

#[test]
fn resources_merge_never_replaces_a_handle_by_none() {
    let mut stored = batch(100, vec![seen("10", "a.pdf", 100, Some("present"))]);
    let incoming = batch(200, vec![seen("10", "a.pdf", 200, None)]);
    merge_resources(&mut stored, incoming);
    assert_eq!(keys(&stored), vec![key("10", "a.pdf", 200)]);
    assert_eq!(stored.items[0].resource, Some("present"));
}

#[test]
fn resources_merge_fuses_a_run_of_three() {
    let mut stored = batch(100, vec![downloaded("10", "a.pdf", 100, 105)]);
    let incoming = batch(
        300,
        vec![
            seen("10", "a.pdf", 300, None),
            seen("10", "a.pdf", 200, Some("second")),
        ],
    );
    merge_resources(&mut stored, incoming);
    assert_eq!(keys(&stored), vec![key("10", "a.pdf", 300)]);
    assert_eq!(stored.items[0].download_path, Some("a.pdf".to_string()));
    // The newest state has no handle, so the one before it is kept.
    assert_eq!(stored.items[0].resource, Some("second"));
}

#[test]
fn resources_merge_at_equal_times_keeps_the_downloaded_state() {
    let mut stored = batch(100, vec![]);
    let incoming = batch(
        100,
        vec![seen("10", "a.pdf", 100, Some("h")), downloaded("10", "a.pdf", 100, 101)],
    );
    merge_resources(&mut stored, incoming);
    assert_eq!(stored.items.len(), 1);
    assert_eq!(stored.items[0].download_path, Some("a.pdf".to_string()));
    assert_eq!(stored.items[0].download_time, Some(Timestamp::new(101, 0)));
    assert_eq!(stored.items[0].resource, Some("h"));
}

#[test]
fn resources_merge_stale_batch_takes_over_local_metadata() {
    // A batch that is older than the stored state sorts first and becomes the
    // one that is kept.
    let mut stored = batch(100, vec![downloaded("10", "a.pdf", 100, 101)]);
    let incoming = batch(50, vec![seen("10", "a.pdf", 50, Some("stale"))]);
    merge_resources(&mut stored, incoming);
    assert_eq!(keys(&stored), vec![key("10", "a.pdf", 100)]);
    assert_eq!(stored.items[0].download_path, None);
    assert_eq!(stored.items[0].resource, Some("stale"));
}

#[test]
fn resources_merge_sorts_by_module_then_path() {
    let mut stored = batch(1, vec![seen("2", "b", 1, None), seen("10", "z", 1, None)]);
    let incoming = batch(2, vec![seen("10", "a/b", 2, None), seen("10", "a", 2, None)]);
    merge_resources(&mut stored, incoming);
    assert_eq!(
        keys(&stored),
        vec![key("10", "a", 2), key("10", "a/b", 2), key("10", "z", 1), key("2", "b", 1)]
    );
}

#[test]
fn resources_merge_drops_states_with_empty_path() {
    let mut stored = batch(1, vec![seen("10", "", 1, Some("x"))]);
    let incoming = batch(2, vec![seen("10", "", 2, None), seen("10", "a", 2, None)]);
    merge_resources(&mut stored, incoming);
    assert_eq!(keys(&stored), vec![key("10", "a", 2)]);
}

#[test]
fn resources_merge_keeps_transient_status_of_stored_state() {
    let mut first = downloaded("10", "a.pdf", 100, 101);
    first.download_status = DownloadStatus::Fetching;
    let mut stored = batch(100, vec![first]);
    merge_resources(&mut stored, batch(200, vec![seen("10", "a.pdf", 200, None)]));
    assert_eq!(stored.items[0].download_status, DownloadStatus::Fetching);
}

#[test]
fn resources_merge_is_idempotent() {
    let mut stored = batch(1, vec![downloaded("10", "a", 1, 2), seen("10", "b", 1, Some("h"))]);
    merge_resources(&mut stored, batch(3, vec![seen("10", "a", 3, Some("n"))]));
    let once = keys(&stored);
    merge_resources(&mut stored, batch(4, vec![]));
    assert_eq!(keys(&stored), once);
    assert_eq!(stored.items[0].resource, Some("n"));
    assert_eq!(stored.items[0].download_path, Some("a".to_string()));
    assert_eq!(stored.items[1].resource, Some("h"));
}

#[test]
fn resource_state_empty_is_the_blank_state() {
    let r: State = ResourceState::empty();
    assert_eq!(r.module_id, "");
    assert_eq!(r.path, "");
    assert_eq!(r.last_updated, Timestamp::epoch());
    assert_eq!(r.download_path, None);
    assert_eq!(r.download_time, None);
    assert_eq!(r.resource, None);
    assert_eq!(r.download_status, DownloadStatus::Idle);
}

#[test]
fn resource_state_new_and_restored() {
    let fresh: State =
        ResourceState::new("h", "10".to_string(), "a.pdf".to_string(), Timestamp::new(3, 4));
    assert_eq!(fresh.module_id, "10");
    assert_eq!(fresh.path, "a.pdf");
    assert_eq!(fresh.last_updated, Timestamp::new(3, 4));
    assert_eq!(fresh.download_path, None);
    assert_eq!(fresh.download_time, None);
    assert_eq!(fresh.resource, Some("h"));
    assert_eq!(fresh.download_status, DownloadStatus::Idle);

    let back: State = ResourceState::restored(
        "10".to_string(),
        "a.pdf".to_string(),
        Timestamp::new(3, 4),
        Some("a.pdf".to_string()),
        Some(Timestamp::new(5, 6)),
    );
    assert_eq!(back.download_path, Some("a.pdf".to_string()));
    assert_eq!(back.download_time, Some(Timestamp::new(5, 6)));
    assert_eq!(back.resource, None);
    assert_eq!(back.download_status, DownloadStatus::Idle);
    assert_eq!(DownloadStatus::default(), DownloadStatus::Idle);
}
