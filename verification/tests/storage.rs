use fluminurs_desktop::data::Data;
use fluminurs_desktop::settings::Settings;
use fluminurs_desktop::storage::{
    get_app_strategy_args, loaded, recovered, save_outcome, Error, SaveStep, Storage,
    StorageWrite, Stored,
};

type Snapshot = Data<u32, u32>;

#[test]
fn save_of_clean_aggregate_is_unnecessary() {
    let mut data = Snapshot::default();
    assert_eq!(data.save(), SaveStep::Skip);
    assert!(!data.dirty);
    assert!(!data.saving);
    assert_eq!(save_outcome(SaveStep::Skip, false), Ok(StorageWrite::Unnecessary));
}

#[test]
fn save_of_dirty_aggregate_writes_and_takes_snapshot() {
    let mut data = Snapshot::default();
    data.mark_dirty();
    assert!(data.dirty);
    assert_eq!(data.save(), SaveStep::Write);
    assert!(!data.dirty);
    assert!(data.saving);
    assert_eq!(save_outcome(SaveStep::Write, true), Ok(StorageWrite::Successful));
}

#[test]
fn save_is_debounced() {
    let mut data = Snapshot::default();
    data.mark_dirty();
    // The first request writes.
    assert_eq!(data.save(), SaveStep::Write);
    // A second one right after it, with nothing changed, has nothing to do.
    assert_eq!(data.save(), SaveStep::Skip);
    // A change while the write is under way has to wait.
    data.mark_dirty();
    assert_eq!(data.save(), SaveStep::Wait);
    assert!(data.dirty);
    assert!(data.saving);
    assert_eq!(save_outcome(SaveStep::Wait, false), Ok(StorageWrite::Retry));
    // The write ends; the change is written by the next request.
    assert_eq!(data.saved(Ok(StorageWrite::Successful)), None);
    assert!(!data.saving);
    assert_eq!(data.saved(Ok(StorageWrite::Retry)), Some(SaveStep::Write));
    assert!(!data.dirty);
    assert!(data.saving);
    assert_eq!(data.saved(Ok(StorageWrite::Successful)), None);
    // Without a change in between nothing is left to do.
    assert_eq!(data.save(), SaveStep::Skip);
    assert_eq!(data.saved(Ok(StorageWrite::Unnecessary)), None);
    assert!(!data.dirty);
    assert!(!data.saving);
}

#[test]
fn retry_while_still_saving_waits_again() {
    let mut data = Snapshot::default();
    data.mark_dirty();
    assert_eq!(data.save(), SaveStep::Write);
    data.mark_dirty();
    assert_eq!(data.saved(Ok(StorageWrite::Retry)), Some(SaveStep::Wait));
    assert!(data.dirty);
    assert!(data.saving);
}

#[test]
fn failed_write_ends_the_write_and_stays_stale() {
    let mut data = Snapshot::default();
    data.mark_dirty();
    assert_eq!(data.save(), SaveStep::Write);
    assert_eq!(save_outcome(SaveStep::Write, false), Err(Error::IoError));
    assert_eq!(data.saved(Err(Error::IoError)), None);
    assert!(!data.saving);
    // The snapshot was taken, so nothing is written until the next change.
    assert!(!data.dirty);
    assert_eq!(data.save(), SaveStep::Skip);
    data.mark_dirty();
    assert_eq!(data.save(), SaveStep::Write);
}

#[test]
fn mark_saving_and_flags() {
    let mut data = Snapshot::default();
    data.mark_dirty();
    assert!(data.is_dirty());
    assert!(!data.is_saving());
    data.mark_saving(true);
    assert!(!data.is_dirty());
    assert!(data.is_saving());
    data.mark_dirty();
    data.mark_saving(false);
    assert!(data.is_dirty());
    assert!(!data.is_saving());
    *data.get_saving() = true;
    *data.get_dirty() = false;
    assert!(data.saving);
    assert!(!data.dirty);
}

#[test]
fn settings_save_is_debounced_too() {
    let mut settings = Settings::default("/home/u/Downloads");
    assert_eq!(settings.save(), SaveStep::Skip);
    settings.set_download_location("/tmp/x".to_string());
    assert_eq!(settings.request_save(), SaveStep::Write);
    assert_eq!(settings.request_save(), SaveStep::Skip);
    settings.set_save_password(true);
    assert_eq!(settings.request_save(), SaveStep::Wait);
    assert_eq!(settings.note_saved(Ok(StorageWrite::Successful)), None);
    assert_eq!(settings.note_saved(Ok(StorageWrite::Retry)), Some(SaveStep::Write));
    assert_eq!(settings.note_saved(Err(Error::IoError)), None);
    assert_eq!(settings.request_save(), SaveStep::Skip);
}

#[test]
fn file_names_of_the_documents() {
    assert_eq!(Snapshot::file_name(), "data.json");
    assert_eq!(Settings::file_name(), "settings.json");
}

#[test]
fn load_tells_missing_from_corrupt() {
    assert_eq!(loaded::<u8>(Stored::Missing), Err(Error::NotFound));
    assert_eq!(loaded::<u8>(Stored::Unreadable), Err(Error::Corrupt));
    assert_eq!(loaded(Stored::Document(7u8)), Ok(7));
}

#[test]
fn corrupt_document_yields_the_default() {
    assert_eq!(recovered(loaded(Stored::Unreadable), 1u8), 1);
    assert_eq!(recovered(loaded(Stored::Missing), 2u8), 2);
    assert_eq!(recovered(loaded(Stored::Document(3u8)), 4u8), 3);
    let data: Snapshot = recovered(loaded(Stored::Unreadable), Snapshot::default());
    assert!(data.modules.items.is_empty());
    assert!(data.files.items.is_empty());
    assert!(!data.dirty);
}

#[test]
fn app_names() {
    let args = get_app_strategy_args();
    assert_eq!(args.top_level_domain, "se");
    assert_eq!(args.author, "ofcr");
    assert_eq!(args.app_name, "Fluminurs Desktop");
}
