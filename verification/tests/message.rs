use fluminurs_desktop::data::{Data, DataItems, FetchStatus};
use fluminurs_desktop::header::HeaderMessage;
use fluminurs_desktop::message::{handle_message, Aggregate, Command, FluminursDesktop, Message};
use fluminurs_desktop::module::{Module, ModuleMessage};
use fluminurs_desktop::pages::login::{LoginMessage, LoginState};
use fluminurs_desktop::pages::resources::ResourcesMessage;
use fluminurs_desktop::pages::settings::SettingsMessage;
use fluminurs_desktop::pages::{Page, Pages};
use fluminurs_desktop::resource::{DownloadStatus, ResourceMessage, ResourceState, ResourceType};
use fluminurs_desktop::settings::Settings;
use fluminurs_desktop::storage::{Error, SaveStep, StorageWrite};
use fluminurs_desktop::time::Timestamp;

type Client = FluminursDesktop<&'static str, u32, u32>;
type Msg = Message<&'static str, u32, u32>;
type Cmd = Command<&'static str, u32, u32>;

fn now() -> Timestamp {
    Timestamp::new(1000, 0)
}

fn fresh() -> Client {
    FluminursDesktop::default("/dl")
}

fn module(id: &str, code: &str, secs: u64, handle: Option<u32>) -> Module<u32> {
    Module {
        id: id.to_string(),
        code: code.to_string(),
        name: code.to_string(),
        term: "2010".to_string(),
        is_taking: true,
        is_teaching: false,
        last_updated: Timestamp::new(secs, 0),
        internal_module: handle,
    }
}

fn state(module_id: &str, path: &str, secs: u64, handle: Option<u32>) -> ResourceState<u32> {
    let mut s = ResourceState::restored(
        module_id.to_string(),
        path.to_string(),
        Timestamp::new(secs, 0),
        None,
        None,
    );
    s.resource = handle;
    s
}

fn logged_in() -> Client {
    let mut client = fresh();
    let modules = DataItems::new(
        Timestamp::new(10, 0),
        vec![module("10", "CS1010", 10, Some(1)), module("11", "MA1101", 10, None)],
    );
    let login = Ok(("session", "nusstu\\e0".to_string(), "pw".to_string(), "Ann".to_string(), modules));
    handle_message(&mut client, Message::LoadedAPI(login), now());
    client
}

fn is_save(command: &Cmd, aggregate: Aggregate, step: SaveStep) -> bool {
    matches!(command, Command::Save(a, s) if *a == aggregate && *s == step)
}

fn is_load_resources(command: &Cmd, resource_type: ResourceType) -> bool {
    matches!(command, Command::Send(Message::LoadResources(t)) if *t == resource_type)
}

#[test]
fn client_starts_on_the_login_page_and_reads_settings() {
    let (client, first): (Client, Vec<Cmd>) = FluminursDesktop::new("/dl");
    assert_eq!(first.len(), 2);
    assert!(matches!(first[0], Command::LoadSettings));
    assert!(matches!(first[1], Command::LoadData));
    assert_eq!(client.api, None);
    assert_eq!(client.name, None);
    assert_eq!(client.current_page, Page::Login);
    assert!(client.modules_map.is_empty());
    assert_eq!(client.settings.get_download_location(), &Some("/dl/LumiNUS".to_string()));
    assert!(client.data.modules.items.is_empty());
    assert!(client.data.files.items.is_empty());
    assert!(!client.data.dirty);
    assert_eq!(client.pages.login.login_state, LoginState::Initial);
    assert!(!client.display_header());
    assert_eq!(client.title(), "Login");
}

#[test]
fn titles_of_the_pages() {
    let mut client = fresh();
    let pages = [
        (Page::Loading, "fluminurs-desktop"),
        (Page::Login, "Login"),
        (Page::Settings, "Settings"),
        (Page::Modules, "Modules"),
        (Page::Files, "Files"),
        (Page::Multimedia, "Multimedia"),
        (Page::Weblectures, "Weblectures"),
        (Page::Conferences, "Conferences"),
    ];
    for (page, title) in pages.iter() {
        let commands = handle_message(&mut client, Message::SwitchPage(*page), now());
        assert!(commands.is_empty());
        assert_eq!(client.current_page, *page);
        assert_eq!(client.title(), *title);
        assert_eq!(client.display_header(), *page != Page::Login);
    }
}

#[test]
fn login_page_keeps_what_is_typed_and_submits_clean_name() {
    let mut client = fresh();
    assert!(handle_message(
        &mut client,
        Message::LoginPage(LoginMessage::UsernameEdited("E0123456".to_string())),
        now()
    )
    .is_empty());
    assert!(handle_message(
        &mut client,
        Message::LoginPage(LoginMessage::PasswordEdited("PassWord".to_string())),
        now()
    )
    .is_empty());
    assert_eq!(client.pages.login.username, "E0123456");
    assert_eq!(client.pages.login.password, "PassWord");
    let commands = handle_message(&mut client, Message::LoginPage(LoginMessage::Submit), now());
    assert_eq!(client.pages.login.login_state, LoginState::SigningIn);
    assert_eq!(commands.len(), 1);
    match &commands[0] {
        Command::Login(credentials) => {
            assert_eq!(credentials.username, "nusstu\\e0123456");
            assert_eq!(credentials.password, "PassWord");
        }
        _ => panic!("a login was expected"),
    }
    assert!(handle_message(&mut client, Message::LoginPage(LoginMessage::Failed), now()).is_empty());
    assert_eq!(client.pages.login.login_state, LoginState::Error);
    assert_eq!(client.pages.login.username, "E0123456");
}

#[test]
fn failed_login_shows_on_the_login_page() {
    let mut client = fresh();
    let commands = handle_message(&mut client, Message::LoadedAPI(Err(Error::RemoteFailure)), now());
    assert!(commands.is_empty());
    assert_eq!(client.pages.login.login_state, LoginState::Error);
    assert_eq!(client.api, None);
    assert_eq!(client.current_page, Page::Login);
}

#[test]
fn login_merges_saves_and_fetches_every_category() {
    let mut client = fresh();
    let modules = DataItems::new(
        Timestamp::new(10, 0),
        vec![module("10", "CS1010", 10, Some(1)), module("11", "MA1101", 10, None)],
    );
    let login = Ok(("session", "nusstu\\e0".to_string(), "pw".to_string(), "Ann".to_string(), modules));
    let commands = handle_message(&mut client, Message::LoadedAPI(login), now());
    assert_eq!(client.api, Some("session"));
    assert_eq!(client.name, Some("Ann".to_string()));
    assert_eq!(client.current_page, Page::Modules);
    assert_eq!(client.data.modules.items.len(), 2);
    assert_eq!(client.data.modules.last_updated, Timestamp::new(10, 0));
    assert_eq!(client.modules_map.get("10").map(|m| m.code.clone()), Some("CS1010".to_string()));
    assert_eq!(client.modules_map.len(), 2);
    // The name is remembered by default, the password is not.
    assert_eq!(client.settings.get_username(), &Some("nusstu\\e0".to_string()));
    assert_eq!(client.settings.get_password(), &None);
    // Both documents are being written.
    assert!(!client.data.dirty);
    assert!(client.data.saving);
    assert_eq!(commands.len(), 6);
    assert!(is_save(&commands[0], Aggregate::Data, SaveStep::Write));
    assert!(is_save(&commands[1], Aggregate::Settings, SaveStep::Write));
    assert!(is_load_resources(&commands[2], ResourceType::File));
    assert!(is_load_resources(&commands[3], ResourceType::Multimedia));
    assert!(is_load_resources(&commands[4], ResourceType::Weblecture));
    assert!(is_load_resources(&commands[5], ResourceType::Conference));
}

#[test]
fn pages_pass_wishes_on() {
    let mut client = fresh();
    let commands =
        handle_message(&mut client, Message::ModulesPage(ModuleMessage::RefreshModules), now());
    assert_eq!(commands.len(), 1);
    assert!(matches!(commands[0], Command::Send(Message::LoadModules(()))));

    let commands = handle_message(
        &mut client,
        Message::ResourcesPage((ResourceType::Weblecture, ResourcesMessage::Refresh)),
        now(),
    );
    assert_eq!(commands.len(), 1);
    assert!(is_load_resources(&commands[0], ResourceType::Weblecture));

    let wish = ResourcesMessage::ResourceMessage(
        ResourceType::File,
        "10".to_string(),
        "a.pdf".to_string(),
        ResourceMessage::OpenResource,
    );
    let commands =
        handle_message(&mut client, Message::ResourcesPage((ResourceType::File, wish)), now());
    assert_eq!(commands.len(), 1);
    match &commands[0] {
        Command::Send(Message::ResourceMessage((t, module_id, path, m))) => {
            assert_eq!(*t, ResourceType::File);
            assert_eq!(module_id, "10");
            assert_eq!(path, "a.pdf");
            assert_eq!(*m, ResourceMessage::OpenResource);
        }
        _ => panic!("a message for the resource was expected"),
    }

    let commands = handle_message(
        &mut client,
        Message::Header(HeaderMessage::SwitchPage(Page::Multimedia)),
        now(),
    );
    assert_eq!(commands.len(), 1);
    assert!(matches!(commands[0], Command::Send(Message::SwitchPage(Page::Multimedia))));
    assert_eq!(client.current_page, Page::Login);
}

#[test]
fn settings_page_and_toggles() {
    let mut client = fresh();
    let commands = handle_message(
        &mut client,
        Message::SettingsPage(SettingsMessage::ToggleSavePassword(true)),
        now(),
    );
    assert_eq!(commands.len(), 1);
    assert!(matches!(commands[0], Command::Send(Message::ToggleSavePassword(true))));
    assert!(!client.settings.get_save_password());

    let commands = handle_message(&mut client, Message::ToggleSavePassword(true), now());
    assert!(client.settings.get_save_password());
    assert_eq!(commands.len(), 1);
    assert!(is_save(&commands[0], Aggregate::Settings, SaveStep::Write));

    // A toggle while the write is under way waits.
    let commands = handle_message(&mut client, Message::ToggleSaveUsername(false), now());
    assert!(!client.settings.get_save_username());
    assert!(is_save(&commands[0], Aggregate::Settings, SaveStep::Wait));

    // A toggle that changes nothing has nothing to save once the write is over.
    handle_message(&mut client, Message::SettingsSaved(Ok(StorageWrite::Successful)), now());
    let commands = handle_message(&mut client, Message::SettingsSaved(Ok(StorageWrite::Retry)), now());
    assert!(is_save(&commands[0], Aggregate::Settings, SaveStep::Write));
    handle_message(&mut client, Message::SettingsSaved(Ok(StorageWrite::Successful)), now());
    let commands = handle_message(&mut client, Message::ToggleSaveUsername(false), now());
    assert!(is_save(&commands[0], Aggregate::Settings, SaveStep::Skip));
    assert!(handle_message(&mut client, Message::SettingsSaved(Ok(StorageWrite::Unnecessary)), now())
        .is_empty());

    let commands = handle_message(
        &mut client,
        Message::SettingsPage(SettingsMessage::SwitchPage(Page::Login)),
        now(),
    );
    assert!(matches!(commands[0], Command::Send(Message::SwitchPage(Page::Login))));
    let commands = handle_message(
        &mut client,
        Message::SettingsPage(SettingsMessage::ToggleSaveUsername(true)),
        now(),
    );
    assert!(matches!(commands[0], Command::Send(Message::ToggleSaveUsername(true))));
}

#[test]
fn choosing_a_download_location() {
    let mut client = fresh();
    let commands = handle_message(
        &mut client,
        Message::SettingsPage(SettingsMessage::ChangeDownloadLocation),
        now(),
    );
    assert!(client.pages.settings.is_changing_download_location);
    assert!(matches!(commands[0], Command::Send(Message::ChangeDownloadLocation)));
    let commands = handle_message(&mut client, Message::ChangeDownloadLocation, now());
    assert_eq!(commands.len(), 1);
    assert!(matches!(commands[0], Command::ChooseDownloadLocation));

    let commands = handle_message(&mut client, Message::DownloadLocationChosen(None), now());
    assert!(commands.is_empty());
    assert!(!client.pages.settings.is_changing_download_location);
    assert_eq!(client.settings.get_download_location(), &Some("/dl/LumiNUS".to_string()));

    handle_message(&mut client, Message::SettingsPage(SettingsMessage::ChangeDownloadLocation), now());
    let commands = handle_message(
        &mut client,
        Message::DownloadLocationChosen(Some("/mnt/big".to_string())),
        now(),
    );
    assert!(!client.pages.settings.is_changing_download_location);
    assert_eq!(client.settings.get_download_location(), &Some("/mnt/big".to_string()));
    assert_eq!(commands.len(), 1);
    assert!(is_save(&commands[0], Aggregate::Settings, SaveStep::Write));

    handle_message(&mut client, Message::SettingsPage(SettingsMessage::ChangeDownloadLocation), now());
    assert!(handle_message(
        &mut client,
        Message::SettingsPage(SettingsMessage::DownloadLocationChanged),
        now()
    )
    .is_empty());
    assert!(!client.pages.settings.is_changing_download_location);
}

#[test]
fn loaded_settings_fill_in_the_login_page() {
    let mut client = fresh();
    handle_message(&mut client, Message::SwitchPage(Page::Loading), now());
    let stored = Settings::restored(
        Some("nusstu\\e0".to_string()),
        Some("pw".to_string()),
        true,
        true,
        Some("/mnt".to_string()),
    );
    let commands = handle_message(&mut client, Message::SettingsLoaded(Ok(stored)), now());
    assert!(commands.is_empty());
    assert_eq!(client.current_page, Page::Login);
    assert_eq!(client.pages.login.username, "nusstu\\e0");
    assert_eq!(client.pages.login.password, "pw");
    assert_eq!(client.settings.get_download_location(), &Some("/mnt".to_string()));
    assert!(client.settings.get_save_password());
}

#[test]
fn settings_that_cannot_be_read_leave_the_defaults() {
    for error in [Error::NotFound, Error::Corrupt] {
        let mut client = fresh();
        handle_message(&mut client, Message::SwitchPage(Page::Loading), now());
        let commands = handle_message(&mut client, Message::SettingsLoaded(Err(error)), now());
        assert!(commands.is_empty());
        assert_eq!(client.current_page, Page::Loading);
        assert_eq!(client.settings.get_download_location(), &Some("/dl/LumiNUS".to_string()));
        assert_eq!(client.pages.login.username, "");
    }
}

#[test]
fn loaded_settings_without_a_name_keep_what_was_typed() {
    let mut client = fresh();
    handle_message(
        &mut client,
        Message::LoginPage(LoginMessage::UsernameEdited("typed".to_string())),
        now(),
    );
    let stored = Settings::restored(None, None, false, false, None);
    handle_message(&mut client, Message::SettingsLoaded(Ok(stored)), now());
    assert_eq!(client.pages.login.username, "typed");
    assert_eq!(client.pages.login.password, "");
}

#[test]
fn fetching_modules_needs_a_session() {
    let mut client = fresh();
    assert!(handle_message(&mut client, Message::LoadModules(()), now()).is_empty());
    assert_eq!(client.data.modules.fetch_status, FetchStatus::Idle);

    let mut client = logged_in();
    let commands = handle_message(&mut client, Message::LoadModules(()), Timestamp::new(77, 7));
    assert_eq!(client.data.modules.fetch_status, FetchStatus::Fetching);
    assert_eq!(commands.len(), 1);
    match &commands[0] {
        Command::FetchModules { last_updated } => assert_eq!(*last_updated, Timestamp::new(77, 7)),
        _ => panic!("a fetch of the modules was expected"),
    }
}

#[test]
fn fetched_modules_are_merged_and_saved() {
    let mut client = logged_in();
    handle_message(&mut client, Message::DataSaved(Ok(StorageWrite::Successful)), now());
    assert!(!client.data.saving);
    handle_message(&mut client, Message::LoadModules(()), now());
    let batch = DataItems::new(Timestamp::new(20, 0), vec![module("10", "CS1010", 20, Some(5))]);
    let commands = handle_message(&mut client, Message::LoadedModules(Ok(batch)), now());
    assert_eq!(client.data.modules.fetch_status, FetchStatus::Idle);
    assert_eq!(client.data.modules.last_updated, Timestamp::new(20, 0));
    assert_eq!(client.data.modules.items.len(), 2);
    assert_eq!(client.data.modules.items[0].code, "CS1010");
    assert_eq!(client.data.modules.items[0].last_updated, Timestamp::new(20, 0));
    assert_eq!(client.data.modules.items[0].internal_module, Some(5));
    assert_eq!(commands.len(), 1);
    assert!(is_save(&commands[0], Aggregate::Data, SaveStep::Write));
    assert!(client.data.saving);
    assert!(!client.data.dirty);
}

#[test]
fn failed_fetch_of_modules_is_marked() {
    let mut client = logged_in();
    handle_message(&mut client, Message::LoadModules(()), now());
    let commands =
        handle_message(&mut client, Message::LoadedModules(Err(Error::RemoteFailure)), now());
    assert!(commands.is_empty());
    assert_eq!(client.data.modules.fetch_status, FetchStatus::Error);
    assert_eq!(client.data.modules.items.len(), 2);
}

#[test]
fn fetching_resources_needs_session_and_modules() {
    let mut client = fresh();
    assert!(handle_message(&mut client, Message::LoadResources(ResourceType::File), now()).is_empty());
    assert_eq!(client.data.files.fetch_status, FetchStatus::Idle);

    let mut client = fresh();
    let login = Ok((
        "session",
        "n".to_string(),
        "p".to_string(),
        "Ann".to_string(),
        DataItems::new(Timestamp::new(1, 0), vec![]),
    ));
    handle_message(&mut client, Message::LoadedAPI(login), now());
    assert!(handle_message(&mut client, Message::LoadResources(ResourceType::File), now()).is_empty());
    assert_eq!(client.data.files.fetch_status, FetchStatus::Idle);

    let mut client = logged_in();
    let commands =
        handle_message(&mut client, Message::LoadResources(ResourceType::Multimedia), Timestamp::new(5, 5));
    assert_eq!(client.data.multimedia.fetch_status, FetchStatus::Fetching);
    assert_eq!(client.data.files.fetch_status, FetchStatus::Idle);
    assert_eq!(commands.len(), 1);
    match &commands[0] {
        Command::FetchResources { resource_type, modules, last_updated } => {
            assert_eq!(*resource_type, ResourceType::Multimedia);
            assert_eq!(modules, &vec![1]);
            assert_eq!(*last_updated, Timestamp::new(5, 5));
        }
        _ => panic!("a fetch of the resources was expected"),
    }
}

#[test]
fn fetched_resources_go_to_their_category() {
    let mut client = logged_in();
    handle_message(&mut client, Message::LoadResources(ResourceType::Conference), now());
    let batch = DataItems::new(Timestamp::new(30, 0), vec![state("10", "rec.mp4", 30, Some(9))]);
    let commands = handle_message(
        &mut client,
        Message::LoadedResources((ResourceType::Conference, Ok(batch))),
        now(),
    );
    assert_eq!(client.data.conferences.items.len(), 1);
    assert_eq!(client.data.conferences.items[0].path, "rec.mp4");
    assert_eq!(client.data.conferences.fetch_status, FetchStatus::Idle);
    assert_eq!(client.data.conferences.last_updated, Timestamp::new(30, 0));
    assert!(client.data.files.items.is_empty());
    assert!(client.data.multimedia.items.is_empty());
    assert!(client.data.weblectures.items.is_empty());
    // The write of the login is still under way.
    assert_eq!(commands.len(), 1);
    assert!(is_save(&commands[0], Aggregate::Data, SaveStep::Wait));
    assert!(client.data.dirty);

    let commands = handle_message(
        &mut client,
        Message::LoadedResources((ResourceType::File, Err(Error::RemoteFailure))),
        now(),
    );
    assert!(commands.is_empty());
    assert_eq!(client.data.files.fetch_status, FetchStatus::Error);
    assert_eq!(client.data.conferences.fetch_status, FetchStatus::Idle);
}

fn with_files() -> Client {
    let mut client = logged_in();
    handle_message(&mut client, Message::DataSaved(Ok(StorageWrite::Successful)), now());
    let batch = DataItems::new(
        Timestamp::new(30, 0),
        vec![state("10", "a.pdf", 30, Some(7)), state("10", "b.pdf", 30, None)],
    );
    handle_message(&mut client, Message::LoadedResources((ResourceType::File, Ok(batch))), now());
    handle_message(&mut client, Message::DataSaved(Ok(StorageWrite::Successful)), now());
    assert!(!client.data.dirty);
    assert!(!client.data.saving);
    client
}

fn ask(path: &str, m: ResourceMessage) -> Msg {
    Message::ResourceMessage((ResourceType::File, "10".to_string(), path.to_string(), m))
}

#[test]
fn download_is_asked_for_with_local_path() {
    let mut client = with_files();
    let commands = handle_message(&mut client, ask("a.pdf", ResourceMessage::DownloadResource), now());
    assert_eq!(client.data.files.items[0].download_status, DownloadStatus::Fetching);
    assert_eq!(client.data.files.items[1].download_status, DownloadStatus::Idle);
    assert_eq!(commands.len(), 1);
    match &commands[0] {
        Command::Download { resource_type, module_id, path, resource, download_dir, download_path } => {
            assert_eq!(*resource_type, ResourceType::File);
            assert_eq!(module_id, "10");
            assert_eq!(path, "a.pdf");
            assert_eq!(*resource, 7);
            assert_eq!(download_dir, &Some("/dl/LumiNUS".to_string()));
            assert_eq!(download_path, "CS1010/Files/a.pdf");
        }
        _ => panic!("a download was expected"),
    }
    assert!(!client.data.dirty);
}

#[test]
fn download_without_descriptor_or_resource_asks_nothing() {
    let mut client = with_files();
    let commands = handle_message(&mut client, ask("b.pdf", ResourceMessage::DownloadResource), now());
    assert!(commands.is_empty());
    assert_eq!(client.data.files.items[1].download_status, DownloadStatus::Fetching);

    let commands = handle_message(&mut client, ask("c.pdf", ResourceMessage::DownloadResource), now());
    assert!(commands.is_empty());

    let mut client = fresh();
    let commands = handle_message(&mut client, ask("a.pdf", ResourceMessage::DownloadResource), now());
    assert!(commands.is_empty());
}

#[test]
fn finished_download_is_recorded_and_saved() {
    let mut client = with_files();
    handle_message(&mut client, ask("a.pdf", ResourceMessage::DownloadResource), now());
    let done = Message::ResourceDownloaded((
        ResourceType::File,
        "10".to_string(),
        "a.pdf".to_string(),
        Ok("CS1010/Files/a.pdf".to_string()),
    ));
    let commands = handle_message(&mut client, done, Timestamp::new(2000, 3));
    let file = &client.data.files.items[0];
    assert_eq!(file.download_status, DownloadStatus::Idle);
    assert_eq!(file.download_path, Some("CS1010/Files/a.pdf".to_string()));
    assert_eq!(file.download_time, Some(Timestamp::new(2000, 3)));
    assert_eq!(file.last_updated, Timestamp::new(30, 0));
    assert_eq!(file.resource, Some(7));
    assert_eq!(commands.len(), 1);
    assert!(is_save(&commands[0], Aggregate::Data, SaveStep::Write));
    assert!(client.data.saving);
}

#[test]
fn failed_download_is_marked_and_not_saved() {
    let mut client = with_files();
    handle_message(&mut client, ask("a.pdf", ResourceMessage::DownloadResource), now());
    let failed = Message::ResourceDownloaded((
        ResourceType::File,
        "10".to_string(),
        "a.pdf".to_string(),
        Err(Error::RemoteFailure),
    ));
    let commands = handle_message(&mut client, failed, now());
    assert!(commands.is_empty());
    assert_eq!(client.data.files.items[0].download_status, DownloadStatus::Error);
    assert_eq!(client.data.files.items[0].download_path, None);
    assert!(!client.data.dirty);
    assert!(!client.data.saving);

    let unknown = Message::ResourceDownloaded((
        ResourceType::Multimedia,
        "10".to_string(),
        "a.pdf".to_string(),
        Ok("x".to_string()),
    ));
    assert!(handle_message(&mut client, unknown, now()).is_empty());
    assert!(!client.data.dirty);
}

#[test]
fn downloaded_file_survives_the_next_fetch() {
    let mut client = with_files();
    let done = Message::ResourceDownloaded((
        ResourceType::File,
        "10".to_string(),
        "a.pdf".to_string(),
        Ok("CS1010/Files/a.pdf".to_string()),
    ));
    handle_message(&mut client, done, Timestamp::new(2000, 0));
    let batch = DataItems::new(Timestamp::new(40, 0), vec![state("10", "a.pdf", 40, Some(8))]);
    handle_message(&mut client, Message::LoadedResources((ResourceType::File, Ok(batch))), now());
    assert_eq!(client.data.files.items.len(), 2);
    let file = &client.data.files.items[0];
    assert_eq!(file.path, "a.pdf");
    assert_eq!(file.last_updated, Timestamp::new(40, 0));
    assert_eq!(file.download_path, Some("CS1010/Files/a.pdf".to_string()));
    assert_eq!(file.download_time, Some(Timestamp::new(2000, 0)));
    assert_eq!(file.resource, Some(8));
    assert_eq!(client.data.files.items[1].path, "b.pdf");
}

#[test]
fn opening_a_resource() {
    let mut client = fresh();
    let commands = handle_message(&mut client, ask("a.pdf", ResourceMessage::OpenResource), now());
    assert_eq!(commands.len(), 1);
    match &commands[0] {
        Command::Open { path } => assert_eq!(path, "a.pdf"),
        _ => panic!("an opening was expected"),
    }
    assert!(handle_message(&mut client, Message::OpenFileResult(Ok(())), now()).is_empty());
    assert!(handle_message(&mut client, Message::OpenFileResult(Err(Error::IoError)), now()).is_empty());
}

#[test]
fn data_saved_outcomes() {
    let mut client = logged_in();
    assert!(client.data.saving);
    // Nothing changed while the write was under way.
    let commands = handle_message(&mut client, Message::DataSaved(Ok(StorageWrite::Retry)), now());
    assert_eq!(commands.len(), 1);
    assert!(is_save(&commands[0], Aggregate::Data, SaveStep::Skip));
    assert!(handle_message(&mut client, Message::DataSaved(Ok(StorageWrite::Unnecessary)), now())
        .is_empty());
    assert!(client.data.saving);
    assert!(handle_message(&mut client, Message::DataSaved(Err(Error::IoError)), now()).is_empty());
    assert!(!client.data.saving);
    assert!(!client.data.dirty);
}

#[test]
fn pages_start_out_well_formed() {
    let pages = Pages::default();
    assert_eq!(pages.files.resource_type, ResourceType::File);
    assert_eq!(pages.multimedia.resource_type, ResourceType::Multimedia);
    assert_eq!(pages.weblectures.resource_type, ResourceType::Weblecture);
    assert_eq!(pages.conferences.resource_type, ResourceType::Conference);
    assert_eq!(pages.resources_page(ResourceType::Weblecture).resource_type, ResourceType::Weblecture);
    assert_eq!(FetchStatus::default(), FetchStatus::Idle);
}

fn stored_snapshot() -> Data<u32, u32> {
    Data::restored(
        DataItems::new(Timestamp::new(5, 0), vec![module("10", "CS1010", 5, None)]),
        DataItems::new(Timestamp::new(6, 0), vec![state("10", "a.pdf", 6, None)]),
        DataItems::default(),
        DataItems::default(),
        DataItems::new(Timestamp::new(7, 0), vec![state("10", "rec.mp4", 7, None)]),
    )
}

#[test]
fn loaded_snapshot_replaces_the_empty_one() {
    let mut client = fresh();
    let commands = handle_message(&mut client, Message::DataLoaded(Ok(stored_snapshot())), now());
    assert!(commands.is_empty());
    assert_eq!(client.data.modules.items.len(), 1);
    assert_eq!(client.data.modules.last_updated, Timestamp::new(5, 0));
    assert_eq!(client.data.files.items[0].path, "a.pdf");
    assert_eq!(client.data.conferences.items[0].path, "rec.mp4");
    assert!(client.data.multimedia.items.is_empty());
    assert_eq!(client.modules_map.get("10").map(|m| m.code.clone()), Some("CS1010".to_string()));
    assert!(!client.data.dirty);
    assert!(!client.data.saving);
    assert_eq!(client.current_page, Page::Login);
}

#[test]
fn loaded_snapshot_keeps_the_flags_of_the_session() {
    let mut client = logged_in();
    handle_message(
        &mut client,
        Message::LoadedResources((
            ResourceType::File,
            Ok(DataItems::new(Timestamp::new(1, 0), vec![])),
        )),
        now(),
    );
    assert!(client.data.dirty);
    assert!(client.data.saving);
    handle_message(&mut client, Message::DataLoaded(Ok(stored_snapshot())), now());
    assert!(client.data.dirty);
    assert!(client.data.saving);
    assert_eq!(client.data.files.items.len(), 1);
    assert_eq!(client.modules_map.len(), 1);
}

#[test]
fn snapshot_that_cannot_be_read_leaves_the_client_going() {
    for error in [Error::NotFound, Error::Corrupt] {
        let mut client = logged_in();
        let commands = handle_message(&mut client, Message::DataLoaded(Err(error)), now());
        assert!(commands.is_empty());
        assert_eq!(client.data.modules.items.len(), 2);
        assert_eq!(client.modules_map.len(), 2);
    }
    let mut client = fresh();
    handle_message(&mut client, Message::DataLoaded(Err(Error::Corrupt)), now());
    assert!(client.data.modules.items.is_empty());
    assert!(client.data.files.items.is_empty());
}
