//! What the client does when something happens: every event is a message,
//! and handling a message changes the state and names the work to be done
//! next. The work itself, which waits for the disk, the network or the user,
//! is done elsewhere and reports back with another message.

use vstd::prelude::*;
use vstd::hash_map::StringHashMap;
use crate::data::Data;
use crate::data::DataItems;
use crate::data::FetchStatus;
use crate::header::HeaderMessage;
use crate::module::all_cloned;
use crate::module::handles_of;
use crate::module::module_handles;
use crate::module::Module;
use crate::module::ModuleMessage;
use crate::pages::login::Credentials;
use crate::pages::login::LoginMessage;
use crate::pages::login::LoginPage;
use crate::pages::login::LoginState;
use crate::pages::resources::ResourcesMessage;
use crate::pages::resources::ResourcesRequest;
use crate::pages::settings::SettingsMessage;
use crate::pages::settings::SettingsPage;
use crate::pages::settings::SettingsRequest;
use crate::pages::Page;
use crate::pages::Pages;
use crate::resource::category_folder;
use crate::resource::find_resource;
use crate::resource::has_no_match;
use crate::resource::is_first_match;
use crate::resource::module_folder;
use crate::resource::DownloadStatus;
use crate::resource::ResourceMessage;
use crate::resource::ResourceState;
use crate::resource::ResourceType;
use crate::text::text_of;
use crate::settings::Settings;
use crate::settings::SettingsView;
use crate::storage::save_step;
use crate::storage::Error;
use crate::storage::SaveStep;
use crate::storage::Storage;
use crate::storage::StorageWrite;
use crate::time::Timestamp;
use crate::utils::construct_modules_map;
use crate::utils::domain_name;
use crate::utils::is_modules_map;
use crate::utils::lowercase;

verus! {

/// The state of the client. `A` is the handle of the remote session, `M` and
/// `R` are the remote handles of a module and of a resource.
#[verifier::reject_recursive_types(M)]
pub struct FluminursDesktop<A, M, R> {
    pub api: Option<A>,
    pub settings: Settings,
    pub data: Data<M, R>,
    pub modules_map: StringHashMap<Module<M>>,
    pub name: Option<String>,
    pub current_page: Page,
    pub pages: Pages,
}

/// What has happened.
#[derive(Debug)]
pub enum Message<A, M, R> {
    LoginPage(LoginMessage),
    ModulesPage(ModuleMessage),
    ResourcesPage((ResourceType, ResourcesMessage)),
    SettingsPage(SettingsMessage),
    Header(HeaderMessage),
    SwitchPage(Page),
    ToggleSaveUsername(bool),
    ToggleSavePassword(bool),
    ChangeDownloadLocation,
    /// The user has chosen a download location, or has given up choosing.
    DownloadLocationChosen(Option<String>),
    SettingsLoaded(Result<Settings, Error>),
    DataLoaded(Result<Data<M, R>, Error>),
    SettingsSaved(Result<StorageWrite, Error>),
    DataSaved(Result<StorageWrite, Error>),
    /// A login has ended: with the session, the name and the password used,
    /// the user's own name and the modules, or in failure.
    LoadedAPI(Result<(A, String, String, String, DataItems<Module<M>>), Error>),
    LoadModules(()),
    LoadedModules(Result<DataItems<Module<M>>, Error>),
    LoadResources(ResourceType),
    LoadedResources((ResourceType, Result<DataItems<ResourceState<R>>, Error>)),
    /// The user asks something of the resource `path` of a module, given by
    /// category, module id and path.
    ResourceMessage((ResourceType, String, String, ResourceMessage)),
    /// A download has ended, for the resource given by category, module id
    /// and path: with the path of the local copy, or in failure.
    ResourceDownloaded((ResourceType, String, String, Result<String, Error>)),
    OpenFileResult(Result<(), Error>),
}

/// The two documents that are stored.
#[derive(Debug, Clone, Copy, PartialEq, Eq, Structural)]
pub enum Aggregate {
    Settings,
    Data,
}

/// Work to be done next. Each piece of work ends with a message.
#[derive(Debug)]
pub enum Command<A, M, R> {
    /// Hand this message in.
    Send(Message<A, M, R>),
    /// Read the stored settings, then report `SettingsLoaded`.
    LoadSettings,
    /// Read the stored snapshot, then report `DataLoaded`.
    LoadData,
    /// Log in, fetch the modules, then report `LoadedAPI`.
    Login(Credentials),
    /// Take this step of saving a document, then report `SettingsSaved` or
    /// `DataSaved`.
    Save(Aggregate, SaveStep),
    /// Fetch the modules, tagged with `last_updated`, then report
    /// `LoadedModules`.
    FetchModules { last_updated: Timestamp },
    /// Fetch the resources of a category for these modules, tagged with
    /// `last_updated`, then report `LoadedResources`.
    FetchResources { resource_type: ResourceType, modules: Vec<M>, last_updated: Timestamp },
    /// Download a resource to `download_path` below `download_dir`, then
    /// report `ResourceDownloaded`.
    Download {
        resource_type: ResourceType,
        module_id: String,
        path: String,
        resource: R,
        download_dir: Option<String>,
        download_path: String,
    },
    /// Open a file with the program that the system has for it, then report
    /// `OpenFileResult`.
    Open { path: String },
    /// Let the user choose a download location, then report
    /// `DownloadLocationChosen`.
    ChooseDownloadLocation,
}

/// The page to show for a category of resources.
pub open spec fn page_of(resource_type: ResourceType) -> Page {
    match resource_type {
        ResourceType::File => Page::Files,
        ResourceType::Multimedia => Page::Multimedia,
        ResourceType::Weblecture => Page::Weblectures,
        ResourceType::Conference => Page::Conferences,
    }
}

/// The title of the window while `page` is shown.
pub open spec fn title_of(page: Page) -> Seq<char> {
    match page {
        Page::Loading => "fluminurs-desktop"@,
        Page::Login => "Login"@,
        Page::Settings => "Settings"@,
        Page::Modules => "Modules"@,
        Page::Files => "Files"@,
        Page::Multimedia => "Multimedia"@,
        Page::Weblectures => "Weblectures"@,
        Page::Conferences => "Conferences"@,
    }
}

impl<A, M, R> FluminursDesktop<A, M, R> {
    /// The client is as at its start: not logged in and on the login page,
    /// with the settings of a first start, an empty snapshot with both flags
    /// clear, and nothing typed or chosen on any page.
    pub open spec fn is_fresh(&self, user_download_dir: Seq<char>) -> bool {
        &&& self.api is None
        &&& self.name is None
        &&& self.current_page == Page::Login
        &&& self.modules_map@ == Map::<Seq<char>, Module<M>>::empty()
        &&& self.settings@ == (SettingsView {
            username: None,
            password: None,
            save_username: true,
            save_password: false,
            download_location: Some(user_download_dir + "/LumiNUS"@),
            dirty: false,
            saving: false,
        })
        &&& self.data.modules.items@ == Seq::<Module<M>>::empty()
        &&& self.data.modules.last_updated.is_epoch()
        &&& self.data.modules.fetch_status == FetchStatus::Idle
        &&& forall|t: ResourceType|
            {
                &&& (#[trigger] self.data.category(t)).items@ == Seq::<ResourceState<R>>::empty()
                &&& self.data.category(t).last_updated.is_epoch()
                &&& self.data.category(t).fetch_status == FetchStatus::Idle
            }
        &&& !self.data.dirty
        &&& !self.data.saving
        &&& self.pages.well_formed()
        &&& self.pages.login.username@ == Seq::<char>::empty()
        &&& self.pages.login.password@ == Seq::<char>::empty()
        &&& self.pages.login.login_state == LoginState::Initial
        &&& !self.pages.settings.is_changing_download_location
    }

    /// The client at its start: not logged in, with the settings of a first
    /// start and an empty snapshot, showing the login page.
    pub fn default(user_download_dir: &str) -> (state: Self)
        ensures
            state.is_fresh(user_download_dir@),
    {
        FluminursDesktop {
            api: None,
            settings: Settings::default(user_download_dir),
            data: Data::default(),
            modules_map: StringHashMap::new(),
            name: None,
            current_page: Page::Login,
            pages: Pages::default(),
        }
    }

    /// The client at its start, and the first work to do: reading the stored
    /// settings and the stored snapshot.
    pub fn new(user_download_dir: &str) -> (start: (Self, Vec<Command<A, M, R>>))
        ensures
            start.0.is_fresh(user_download_dir@),
            start.1@ =~= seq![Command::LoadSettings, Command::LoadData],
    {
        let mut first = Vec::new();
        first.push(Command::LoadSettings);
        first.push(Command::LoadData);
        (Self::default(user_download_dir), first)
    }

    /// The title of the window.
    pub fn title(&self) -> (title: String)
        ensures
            title@ == title_of(self.current_page),
    {
        let title = match self.current_page {
            Page::Loading => "fluminurs-desktop",
            Page::Login => "Login",
            Page::Settings => "Settings",
            Page::Modules => "Modules",
            Page::Files => "Files",
            Page::Multimedia => "Multimedia",
            Page::Weblectures => "Weblectures",
            Page::Conferences => "Conferences",
        };
        title.to_owned()
    }

    /// Whether the header is shown: on every page but the login page.
    pub fn display_header(&self) -> (shown: bool)
        ensures
            shown == (self.current_page != Page::Login),
    {
        match self.current_page {
            Page::Login => false,
            _ => true,
        }
    }
}

/// The login page took the message `m`: it keeps what was typed, and
/// submitting starts a login with the name in the form that the remote source
/// wants.
pub open spec fn login_page_handled<A, M, R>(
    before: FluminursDesktop<A, M, R>,
    m: LoginMessage,
    after: FluminursDesktop<A, M, R>,
    commands: Seq<Command<A, M, R>>,
) -> bool {
    let page = before.pages.login;
    match m {
        LoginMessage::UsernameEdited(username) => {
            &&& after == (FluminursDesktop {
                pages: Pages { login: LoginPage { username, ..page }, ..before.pages },
                ..before
            })
            &&& commands.len() == 0
        },
        LoginMessage::PasswordEdited(password) => {
            &&& after == (FluminursDesktop {
                pages: Pages { login: LoginPage { password, ..page }, ..before.pages },
                ..before
            })
            &&& commands.len() == 0
        },
        LoginMessage::Submit => {
            &&& after == (FluminursDesktop {
                pages: Pages {
                    login: LoginPage { login_state: LoginState::SigningIn, ..page },
                    ..before.pages
                },
                ..before
            })
            &&& commands.len() == 1
            &&& commands[0] matches Command::Login(credentials)
            &&& credentials.username@ == domain_name(lowercase(page.username@))
            &&& credentials.password == page.password
        },
        LoginMessage::Failed => {
            &&& after == (FluminursDesktop {
                pages: Pages {
                    login: LoginPage { login_state: LoginState::Error, ..page },
                    ..before.pages
                },
                ..before
            })
            &&& commands.len() == 0
        },
    }
}

/// The settings page took the message `m`: it remembers whether a download
/// location is being chosen, and passes the user's wish on.
pub open spec fn settings_page_handled<A, M, R>(
    before: FluminursDesktop<A, M, R>,
    m: SettingsMessage,
    after: FluminursDesktop<A, M, R>,
    commands: Seq<Command<A, M, R>>,
) -> bool {
    let choosing = match m {
        SettingsMessage::ChangeDownloadLocation => true,
        SettingsMessage::DownloadLocationChanged => false,
        _ => before.pages.settings.is_changing_download_location,
    };
    &&& after == (FluminursDesktop {
        pages: Pages {
            settings: SettingsPage { is_changing_download_location: choosing },
            ..before.pages
        },
        ..before
    })
    &&& commands =~= (match m {
        SettingsMessage::SwitchPage(page) => seq![Command::Send(Message::SwitchPage(page))],
        SettingsMessage::ToggleSaveUsername(save) => seq![
            Command::Send(Message::ToggleSaveUsername(save)),
        ],
        SettingsMessage::ToggleSavePassword(save) => seq![
            Command::Send(Message::ToggleSavePassword(save)),
        ],
        SettingsMessage::ChangeDownloadLocation => seq![
            Command::Send(Message::ChangeDownloadLocation),
        ],
        SettingsMessage::DownloadLocationChanged => seq![],
    })
}

/// The settings were changed to `changed` and a save was asked for.
pub open spec fn settings_changed<A, M, R>(
    before: FluminursDesktop<A, M, R>,
    changed: SettingsView,
    after: FluminursDesktop<A, M, R>,
    commands: Seq<Command<A, M, R>>,
) -> bool {
    &&& after.settings@ == changed.after_save()
    &&& after == (FluminursDesktop { settings: after.settings, ..before })
    &&& commands =~= seq![
        Command::Save(Aggregate::Settings, save_step(changed.dirty, changed.saving)),
    ]
}

/// The user has chosen the download location `chosen`, or none: the settings
/// page is told, and a chosen location is kept and saved.
pub open spec fn download_location_handled<A, M, R>(
    before: FluminursDesktop<A, M, R>,
    chosen: Option<String>,
    after: FluminursDesktop<A, M, R>,
    commands: Seq<Command<A, M, R>>,
) -> bool {
    let told = FluminursDesktop {
        pages: Pages {
            settings: SettingsPage { is_changing_download_location: false },
            ..before.pages
        },
        ..before
    };
    match chosen {
        Some(location) => settings_changed(
            told,
            before.settings@.with_download_location(location@),
            after,
            commands,
        ),
        None => after == told && commands.len() == 0,
    }
}

/// The stored settings were read: they take the place of the present ones,
/// the login page shows with the remembered name and password filled in. A
/// failed read changes nothing.
pub open spec fn settings_loaded_handled<A, M, R>(
    before: FluminursDesktop<A, M, R>,
    loaded: Result<Settings, Error>,
    after: FluminursDesktop<A, M, R>,
    commands: Seq<Command<A, M, R>>,
) -> bool {
    &&& commands.len() == 0
    &&& match loaded {
        Ok(settings) => {
            &&& after == (FluminursDesktop {
                settings,
                current_page: Page::Login,
                pages: Pages { login: after.pages.login, ..before.pages },
                ..before
            })
            &&& after.pages.login.login_state == before.pages.login.login_state
            &&& after.pages.login.username@ == (match settings@.username {
                Some(username) => username,
                None => before.pages.login.username@,
            })
            &&& after.pages.login.password@ == (match settings@.password {
                Some(password) => password,
                None => before.pages.login.password@,
            })
        },
        Err(_) => after == before,
    }
}

/// The stored snapshot was read: its modules and resources take the place of
/// the present ones, the modules are looked up by id afresh, and the two flags
/// stay as they are. A failed read changes nothing, so that the client goes on
/// with what it has.
pub open spec fn data_loaded_handled<A, M: Clone, R>(
    before: FluminursDesktop<A, M, R>,
    loaded: Result<Data<M, R>, Error>,
    after: FluminursDesktop<A, M, R>,
    commands: Seq<Command<A, M, R>>,
) -> bool {
    &&& commands.len() == 0
    &&& match loaded {
        Ok(data) => {
            &&& after == (FluminursDesktop {
                data: Data { dirty: before.data.dirty, saving: before.data.saving, ..data },
                modules_map: after.modules_map,
                ..before
            })
            &&& is_modules_map(data.modules.items@, after.modules_map@)
        },
        Err(_) => after == before,
    }
}

/// A request to save the settings has ended with `outcome`.
pub open spec fn settings_saved_handled<A, M, R>(
    before: FluminursDesktop<A, M, R>,
    outcome: Result<StorageWrite, Error>,
    after: FluminursDesktop<A, M, R>,
    commands: Seq<Command<A, M, R>>,
) -> bool {
    &&& after.settings@ == before.settings@.after_saved(outcome)
    &&& after == (FluminursDesktop { settings: after.settings, ..before })
    &&& commands =~= (match outcome {
        Ok(StorageWrite::Retry) => seq![
            Command::Save(
                Aggregate::Settings,
                save_step(before.settings@.dirty, before.settings@.saving),
            ),
        ],
        _ => seq![],
    })
}

/// A request to save the snapshot has ended with `outcome`: a request that
/// has to be tried again is made again, one that found nothing to do leaves no
/// trace, and a write that went through or failed is over.
pub open spec fn data_saved_handled<A, M, R>(
    before: FluminursDesktop<A, M, R>,
    outcome: Result<StorageWrite, Error>,
    after: FluminursDesktop<A, M, R>,
    commands: Seq<Command<A, M, R>>,
) -> bool {
    let data = before.data;
    match outcome {
        Ok(StorageWrite::Retry) => {
            &&& after == (FluminursDesktop {
                data: if save_step(data.dirty, data.saving) == SaveStep::Write {
                    Data { dirty: false, saving: true, ..data }
                } else {
                    data
                },
                ..before
            })
            &&& commands =~= seq![
                Command::Save(Aggregate::Data, save_step(data.dirty, data.saving)),
            ]
        },
        Ok(StorageWrite::Unnecessary) => after == before && commands.len() == 0,
        _ => {
            &&& after == (FluminursDesktop { data: Data { saving: false, ..data }, ..before })
            &&& commands.len() == 0
        },
    }
}

/// A login has ended. One that went through leaves the client logged in and
/// on the page of the modules: the modules are merged into the snapshot and
/// looked up by id afresh, the login is remembered as far as the settings say,
/// both documents are saved, and the resources of every category are asked
/// for. One that failed is shown on the login page.
pub open spec fn login_handled<A, M: Clone, R>(
    before: FluminursDesktop<A, M, R>,
    login: Result<(A, String, String, String, DataItems<Module<M>>), Error>,
    after: FluminursDesktop<A, M, R>,
    commands: Seq<Command<A, M, R>>,
) -> bool {
    match login {
        Ok((api, username, password, name, modules)) => {
            let changed = before.settings@.with_login_details(username@, password@);
            &&& after.api == Some(api)
            &&& after.name == Some(name)
            &&& before.data.modules_absorbed(modules, after.data)
            &&& is_modules_map(after.data.modules.items@, after.modules_map@)
            &&& after.current_page == Page::Modules
            &&& after.settings@ == changed.after_save()
            &&& after.pages == before.pages
            &&& commands =~= seq![
                Command::Save(Aggregate::Data, save_step(true, before.data.saving)),
                Command::Save(Aggregate::Settings, save_step(changed.dirty, changed.saving)),
                Command::Send(Message::LoadResources(ResourceType::File)),
                Command::Send(Message::LoadResources(ResourceType::Multimedia)),
                Command::Send(Message::LoadResources(ResourceType::Weblecture)),
                Command::Send(Message::LoadResources(ResourceType::Conference)),
            ]
        },
        Err(_) => login_page_handled(before, LoginMessage::Failed, after, commands),
    }
}

/// The modules are to be fetched: where the client is logged in, the fetch is
/// marked as under way and asked for, tagged with the present time.
pub open spec fn load_modules_handled<A, M, R>(
    before: FluminursDesktop<A, M, R>,
    now: Timestamp,
    after: FluminursDesktop<A, M, R>,
    commands: Seq<Command<A, M, R>>,
) -> bool {
    if before.api is Some {
        &&& after == (FluminursDesktop {
            data: Data {
                modules: DataItems { fetch_status: FetchStatus::Fetching, ..before.data.modules },
                ..before.data
            },
            ..before
        })
        &&& commands =~= seq![Command::FetchModules { last_updated: now }]
    } else {
        after == before && commands.len() == 0
    }
}

/// A fetch of the modules has ended: what it brought is merged into the
/// snapshot, which is saved; a failure is marked on the modules.
pub open spec fn modules_loaded_handled<A, M, R>(
    before: FluminursDesktop<A, M, R>,
    fetched: Result<DataItems<Module<M>>, Error>,
    after: FluminursDesktop<A, M, R>,
    commands: Seq<Command<A, M, R>>,
) -> bool {
    match fetched {
        Ok(batch) => {
            &&& before.data.modules_absorbed(batch, after.data)
            &&& after == (FluminursDesktop { data: after.data, ..before })
            &&& commands =~= seq![
                Command::Save(Aggregate::Data, save_step(true, before.data.saving)),
            ]
        },
        Err(_) => {
            &&& after == (FluminursDesktop {
                data: Data {
                    modules: DataItems { fetch_status: FetchStatus::Error, ..before.data.modules },
                    ..before.data
                },
                ..before
            })
            &&& commands.len() == 0
        },
    }
}

/// The resources of a category are to be fetched: where the client is logged
/// in and knows of modules, the fetch is marked as under way and asked for,
/// for the handles of the modules and tagged with the present time.
pub open spec fn load_resources_handled<A, M: Clone, R>(
    before: FluminursDesktop<A, M, R>,
    resource_type: ResourceType,
    now: Timestamp,
    after: FluminursDesktop<A, M, R>,
    commands: Seq<Command<A, M, R>>,
) -> bool {
    if before.api is Some && before.data.modules.items@.len() > 0 {
        &&& after == (FluminursDesktop {
            data: before.data.with_fetch_status(resource_type, FetchStatus::Fetching),
            ..before
        })
        &&& commands.len() == 1
        &&& commands[0] matches Command::FetchResources { resource_type: t, modules, last_updated }
        &&& t == resource_type
        &&& last_updated == now
        &&& all_cloned(handles_of(before.data.modules.items@), modules@)
    } else {
        after == before && commands.len() == 0
    }
}

/// A fetch of the resources of a category has ended: what it brought is
/// merged into the snapshot, which is saved; a failure is marked on the
/// category.
pub open spec fn resources_loaded_handled<A, M, R>(
    before: FluminursDesktop<A, M, R>,
    resource_type: ResourceType,
    fetched: Result<DataItems<ResourceState<R>>, Error>,
    after: FluminursDesktop<A, M, R>,
    commands: Seq<Command<A, M, R>>,
) -> bool {
    match fetched {
        Ok(batch) => {
            &&& before.data.resources_absorbed(resource_type, batch, after.data)
            &&& after == (FluminursDesktop { data: after.data, ..before })
            &&& commands =~= seq![
                Command::Save(Aggregate::Data, save_step(true, before.data.saving)),
            ]
        },
        Err(_) => {
            &&& after == (FluminursDesktop {
                data: before.data.with_fetch_status(resource_type, FetchStatus::Error),
                ..before
            })
            &&& commands.len() == 0
        },
    }
}

/// The snapshot with the state at position `i` of `resource_type` replaced
/// by `state`.
pub open spec fn with_state<M, R>(
    data: Data<M, R>,
    resource_type: ResourceType,
    i: int,
    state: ResourceState<R>,
    after: Data<M, R>,
) -> bool {
    let category = data.category(resource_type);
    let changed = after.category(resource_type);
    &&& changed.items@ == category.items@.update(i, state)
    &&& changed.last_updated == category.last_updated
    &&& changed.fetch_status == category.fetch_status
    &&& after == data.with_category(resource_type, changed)
}

/// The user asks for the download of a resource. Where the client is logged
/// in and knows the resource, its download is marked as under way, and asked
/// for if the resource has its descriptor: to the local path of the resource,
/// below the download location of the settings.
pub open spec fn download_requested<A, M, R: Clone>(
    before: FluminursDesktop<A, M, R>,
    resource_type: ResourceType,
    module_id: String,
    path: String,
    after: FluminursDesktop<A, M, R>,
    commands: Seq<Command<A, M, R>>,
) -> bool {
    let items = before.data.category(resource_type).items@;
    if before.api is Some && !has_no_match(items, module_id@, path@) {
        exists|i: int|
            {
                &&& #[trigger] is_first_match(items, module_id@, path@, i)
                &&& with_state(
                    before.data,
                    resource_type,
                    i,
                    ResourceState { download_status: DownloadStatus::Fetching, ..items[i] },
                    after.data,
                )
                &&& after == (FluminursDesktop { data: after.data, ..before })
                &&& match items[i].resource {
                    Some(descriptor) => {
                        &&& commands.len() == 1
                        &&& commands[0] matches Command::Download {
                            resource_type: t,
                            module_id: m,
                            path: p,
                            resource,
                            download_dir,
                            download_path,
                        }
                        &&& t == resource_type
                        &&& m == module_id
                        &&& p == items[i].path
                        &&& cloned::<R>(descriptor, resource)
                        &&& text_of(download_dir) == before.settings@.download_location
                        &&& download_path@ == module_folder(
                            before.modules_map@,
                            items[i].module_id@,
                        ) + "/"@ + category_folder(resource_type) + "/"@ + items[i].path@
                    },
                    None => commands.len() == 0,
                }
            }
    } else {
        after == before && commands.len() == 0
    }
}

/// A download has ended at `now`. Where the client knows the resource, the
/// outcome is recorded on it; a download that went through changes the
/// snapshot, which is saved.
pub open spec fn download_handled<A, M, R>(
    before: FluminursDesktop<A, M, R>,
    resource_type: ResourceType,
    module_id: String,
    path: String,
    outcome: Result<String, Error>,
    now: Timestamp,
    after: FluminursDesktop<A, M, R>,
    commands: Seq<Command<A, M, R>>,
) -> bool {
    let items = before.data.category(resource_type).items@;
    if !has_no_match(items, module_id@, path@) {
        exists|i: int|
            {
                &&& #[trigger] is_first_match(items, module_id@, path@, i)
                &&& after == (FluminursDesktop { data: after.data, ..before })
                &&& match outcome {
                    Ok(_) => {
                        &&& with_state(
                            before.data,
                            resource_type,
                            i,
                            items[i].after_download(outcome, now),
                            Data {
                                dirty: before.data.dirty,
                                saving: before.data.saving,
                                ..after.data
                            },
                        )
                        &&& after.data.dirty == before.data.saving
                        &&& after.data.saving
                        &&& commands =~= seq![
                            Command::Save(Aggregate::Data, save_step(true, before.data.saving)),
                        ]
                    },
                    Err(_) => {
                        &&& with_state(
                            before.data,
                            resource_type,
                            i,
                            items[i].after_download(outcome, now),
                            after.data,
                        )
                        &&& commands.len() == 0
                    },
                }
            }
    } else {
        after == before && commands.len() == 0
    }
}

/// Handling `message` at the time `now` takes the client from `before` to
/// `after` and asks for the work `commands`.
pub open spec fn handled<A, M: Clone, R: Clone>(
    before: FluminursDesktop<A, M, R>,
    message: Message<A, M, R>,
    now: Timestamp,
    after: FluminursDesktop<A, M, R>,
    commands: Seq<Command<A, M, R>>,
) -> bool {
    match message {
        Message::LoginPage(m) => login_page_handled(before, m, after, commands),
        Message::ModulesPage(ModuleMessage::RefreshModules) => {
            &&& after == before
            &&& commands =~= seq![Command::Send(Message::LoadModules(()))]
        },
        Message::ResourcesPage((resource_type, m)) => {
            &&& after == before
            &&& commands =~= (match m {
                ResourcesMessage::Refresh => seq![
                    Command::Send(
                        Message::LoadResources(before.pages.resources(resource_type).resource_type),
                    ),
                ],
                ResourcesMessage::ResourceMessage(t, module_id, path, m) => seq![
                    Command::Send(Message::ResourceMessage((t, module_id, path, m))),
                ],
            })
        },
        Message::SettingsPage(m) => settings_page_handled(before, m, after, commands),
        Message::Header(HeaderMessage::SwitchPage(page)) => {
            &&& after == before
            &&& commands =~= seq![Command::Send(Message::SwitchPage(page))]
        },
        Message::SwitchPage(page) => {
            &&& after == (FluminursDesktop { current_page: page, ..before })
            &&& commands.len() == 0
        },
        Message::ToggleSaveUsername(save) => settings_changed(
            before,
            before.settings@.with_save_username(save),
            after,
            commands,
        ),
        Message::ToggleSavePassword(save) => settings_changed(
            before,
            before.settings@.with_save_password(save),
            after,
            commands,
        ),
        Message::ChangeDownloadLocation => {
            &&& after == before
            &&& commands =~= seq![Command::ChooseDownloadLocation]
        },
        Message::DownloadLocationChosen(chosen) => download_location_handled(
            before,
            chosen,
            after,
            commands,
        ),
        Message::SettingsLoaded(loaded) => settings_loaded_handled(before, loaded, after, commands),
        Message::DataLoaded(loaded) => data_loaded_handled(before, loaded, after, commands),
        Message::SettingsSaved(outcome) => settings_saved_handled(before, outcome, after, commands),
        Message::DataSaved(outcome) => data_saved_handled(before, outcome, after, commands),
        Message::LoadedAPI(login) => login_handled(before, login, after, commands),
        Message::LoadModules(_) => load_modules_handled(before, now, after, commands),
        Message::LoadedModules(fetched) => modules_loaded_handled(before, fetched, after, commands),
        Message::LoadResources(resource_type) => load_resources_handled(
            before,
            resource_type,
            now,
            after,
            commands,
        ),
        Message::LoadedResources((resource_type, fetched)) => resources_loaded_handled(
            before,
            resource_type,
            fetched,
            after,
            commands,
        ),
        Message::ResourceMessage((resource_type, module_id, path, m)) => match m {
            ResourceMessage::DownloadResource => download_requested(
                before,
                resource_type,
                module_id,
                path,
                after,
                commands,
            ),
            ResourceMessage::OpenResource => {
                &&& after == before
                &&& commands =~= seq![Command::Open { path }]
            },
        },
        Message::ResourceDownloaded((resource_type, module_id, path, outcome)) => download_handled(
            before,
            resource_type,
            module_id,
            path,
            outcome,
            now,
            after,
            commands,
        ),
        Message::OpenFileResult(_) => after == before && commands.len() == 0,
    }
}

/// A copy of an optional text.
fn copy_of_text(text: &Option<String>) -> (copy: Option<String>)
    ensures
        copy == *text,
{
    match text {
        Some(t) => Some(t.clone()),
        None => None,
    }
}

impl<A, M: Clone, R: Clone> FluminursDesktop<A, M, R> {
    fn handle_login_page(&mut self, m: LoginMessage) -> (commands: Vec<Command<A, M, R>>)
        ensures
            login_page_handled(*old(self), m, *final(self), commands@),
    {
        let mut commands = Vec::new();
        match self.pages.login.update(m) {
            Some(credentials) => {
                commands.push(Command::Login(credentials));
            },
            None => {},
        }
        commands
    }

    fn handle_settings_page(&mut self, m: SettingsMessage) -> (commands: Vec<Command<A, M, R>>)
        ensures
            settings_page_handled(*old(self), m, *final(self), commands@),
    {
        let mut commands = Vec::new();
        match self.pages.settings.update(m) {
            Some(SettingsRequest::SwitchPage(page)) => {
                commands.push(Command::Send(Message::SwitchPage(page)));
            },
            Some(SettingsRequest::ToggleSaveUsername(save)) => {
                commands.push(Command::Send(Message::ToggleSaveUsername(save)));
            },
            Some(SettingsRequest::ToggleSavePassword(save)) => {
                commands.push(Command::Send(Message::ToggleSavePassword(save)));
            },
            Some(SettingsRequest::ChangeDownloadLocation) => {
                commands.push(Command::Send(Message::ChangeDownloadLocation));
            },
            None => {},
        }
        commands
    }

    fn save_settings(&mut self) -> (commands: Vec<Command<A, M, R>>)
        ensures
            settings_changed(*old(self), old(self).settings@, *final(self), commands@),
    {
        let mut commands = Vec::new();
        let step = self.settings.request_save();
        commands.push(Command::Save(Aggregate::Settings, step));
        commands
    }

    fn handle_download_location(&mut self, chosen: Option<String>) -> (commands: Vec<
        Command<A, M, R>,
    >)
        ensures
            download_location_handled(*old(self), chosen, *final(self), commands@),
    {
        self.pages.settings.update(SettingsMessage::DownloadLocationChanged);
        match chosen {
            Some(location) => {
                self.settings.set_download_location(location);
                self.save_settings()
            },
            None => Vec::new(),
        }
    }

    fn handle_settings_loaded(&mut self, loaded: Result<Settings, Error>) -> (commands: Vec<
        Command<A, M, R>,
    >)
        ensures
            settings_loaded_handled(*old(self), loaded, *final(self), commands@),
    {
        match loaded {
            Ok(settings) => {
                self.settings = settings;
                self.current_page = Page::Login;
                let username = copy_of_text(self.settings.get_username());
                if let Some(username) = username {
                    self.pages.login.update(LoginMessage::UsernameEdited(username));
                }
                let password = copy_of_text(self.settings.get_password());
                if let Some(password) = password {
                    self.pages.login.update(LoginMessage::PasswordEdited(password));
                }
            },
            // Without stored settings the present ones stay.
            Err(_) => {},
        }
        Vec::new()
    }

    fn handle_data_loaded(&mut self, loaded: Result<Data<M, R>, Error>) -> (commands: Vec<
        Command<A, M, R>,
    >)
        ensures
            data_loaded_handled(*old(self), loaded, *final(self), commands@),
    {
        match loaded {
            Ok(data) => {
                let dirty = self.data.dirty;
                let saving = self.data.saving;
                self.data = data;
                self.data.dirty = dirty;
                self.data.saving = saving;
                self.modules_map = construct_modules_map(&self.data.modules.items);
            },
            // Without a stored snapshot the present one stays.
            Err(_) => {},
        }
        Vec::new()
    }

    fn handle_settings_saved(&mut self, outcome: Result<StorageWrite, Error>) -> (commands: Vec<
        Command<A, M, R>,
    >)
        ensures
            settings_saved_handled(*old(self), outcome, *final(self), commands@),
    {
        let mut commands = Vec::new();
        match self.settings.note_saved(outcome) {
            Some(step) => {
                commands.push(Command::Save(Aggregate::Settings, step));
            },
            None => {},
        }
        commands
    }

    fn handle_data_saved(&mut self, outcome: Result<StorageWrite, Error>) -> (commands: Vec<
        Command<A, M, R>,
    >)
        ensures
            data_saved_handled(*old(self), outcome, *final(self), commands@),
    {
        let mut commands = Vec::new();
        match self.data.saved(outcome) {
            Some(step) => {
                commands.push(Command::Save(Aggregate::Data, step));
            },
            None => {},
        }
        commands
    }

    fn handle_login(
        &mut self,
        login: Result<(A, String, String, String, DataItems<Module<M>>), Error>,
    ) -> (commands: Vec<Command<A, M, R>>)
        ensures
            login_handled(*old(self), login, *final(self), commands@),
    {
        match login {
            Ok((api, username, password, name, modules)) => {
                let mut commands = Vec::new();
                self.name = Some(name);
                self.api = Some(api);
                let data_step = self.data.absorb_modules(modules);
                self.modules_map = construct_modules_map(&self.data.modules.items);
                self.current_page = Page::Modules;
                self.settings.set_login_details(username, password);
                let settings_step = self.settings.request_save();
                commands.push(Command::Save(Aggregate::Data, data_step));
                commands.push(Command::Save(Aggregate::Settings, settings_step));
                commands.push(Command::Send(Message::LoadResources(ResourceType::File)));
                commands.push(Command::Send(Message::LoadResources(ResourceType::Multimedia)));
                commands.push(Command::Send(Message::LoadResources(ResourceType::Weblecture)));
                commands.push(Command::Send(Message::LoadResources(ResourceType::Conference)));
                commands
            },
            Err(_) => self.handle_login_page(LoginMessage::Failed),
        }
    }

    fn handle_load_modules(&mut self, now: Timestamp) -> (commands: Vec<Command<A, M, R>>)
        ensures
            load_modules_handled(*old(self), now, *final(self), commands@),
    {
        let mut commands = Vec::new();
        if self.api.is_some() {
            self.data.modules.fetch_status = FetchStatus::Fetching;
            commands.push(Command::FetchModules { last_updated: now });
        }
        commands
    }

    fn handle_modules_loaded(&mut self, fetched: Result<DataItems<Module<M>>, Error>) -> (commands:
        Vec<Command<A, M, R>>)
        ensures
            modules_loaded_handled(*old(self), fetched, *final(self), commands@),
    {
        let mut commands = Vec::new();
        match fetched {
            Ok(batch) => {
                let step = self.data.absorb_modules(batch);
                commands.push(Command::Save(Aggregate::Data, step));
            },
            Err(_) => {
                self.data.modules.fetch_status = FetchStatus::Error;
            },
        }
        commands
    }

    fn handle_load_resources(&mut self, resource_type: ResourceType, now: Timestamp) -> (commands:
        Vec<Command<A, M, R>>)
        ensures
            load_resources_handled(*old(self), resource_type, now, *final(self), commands@),
    {
        let mut commands = Vec::new();
        if self.api.is_some() && self.data.modules.items.len() > 0 {
            let modules = module_handles(&self.data.modules.items);
            self.data.set_fetch_status(resource_type, FetchStatus::Fetching);
            commands.push(Command::FetchResources { resource_type, modules, last_updated: now });
        }
        commands
    }

    fn handle_resources_loaded(
        &mut self,
        resource_type: ResourceType,
        fetched: Result<DataItems<ResourceState<R>>, Error>,
    ) -> (commands: Vec<Command<A, M, R>>)
        ensures
            resources_loaded_handled(*old(self), resource_type, fetched, *final(self), commands@),
    {
        let mut commands = Vec::new();
        match fetched {
            Ok(batch) => {
                let step = self.data.absorb_resources(resource_type, batch);
                commands.push(Command::Save(Aggregate::Data, step));
            },
            Err(_) => {
                self.data.set_fetch_status(resource_type, FetchStatus::Error);
            },
        }
        commands
    }

    fn request_download(&mut self, resource_type: ResourceType, module_id: String, path: String) -> (
        commands: Vec<Command<A, M, R>>)
        ensures
            download_requested(*old(self), resource_type, module_id, path, *final(self), commands@),
    {
        let mut commands = Vec::new();
        if self.api.is_none() {
            return commands;
        }
        let found = find_resource(
            &self.data.category_ref(resource_type).items,
            module_id.as_str(),
            path.as_str(),
        );
        if let Some(i) = found {
            let ghost items = self.data.category(resource_type).items@;
            let download_dir = copy_of_text(self.settings.get_download_location());
            let category = self.data.category_mut(resource_type);
            category.items[i].download_status = DownloadStatus::Fetching;
            let file = &category.items[i];
            match &file.resource {
                Some(resource) => {
                    commands.push(
                        Command::Download {
                            resource_type,
                            module_id,
                            path: file.path.clone(),
                            resource: resource.clone(),
                            download_dir,
                            download_path: file.local_resource_path(
                                &self.modules_map,
                                resource_type,
                            ),
                        },
                    );
                },
                None => {},
            }
            assert(is_first_match(items, module_id@, path@, i as int));
        }
        commands
    }

    fn handle_download(
        &mut self,
        resource_type: ResourceType,
        module_id: String,
        path: String,
        outcome: Result<String, Error>,
        now: Timestamp,
    ) -> (commands: Vec<Command<A, M, R>>)
        ensures
            download_handled(
                *old(self),
                resource_type,
                module_id,
                path,
                outcome,
                now,
                *final(self),
                commands@,
            ),
    {
        let mut commands = Vec::new();
        let found = find_resource(
            &self.data.category_ref(resource_type).items,
            module_id.as_str(),
            path.as_str(),
        );
        if let Some(i) = found {
            let ghost items = self.data.category(resource_type).items@;
            let went_through = outcome.is_ok();
            let category = self.data.category_mut(resource_type);
            category.items[i].downloaded(outcome, now);
            if went_through {
                self.data.mark_dirty();
                let step = self.data.save();
                commands.push(Command::Save(Aggregate::Data, step));
            }
            assert(is_first_match(items, module_id@, path@, i as int));
        }
        commands
    }
}

/// Handles `message` at the time `now`: changes the state of the client and
/// hands back the work to be done next, in the order in which it is to be
/// started.
pub fn handle_message<A, M: Clone, R: Clone>(
    state: &mut FluminursDesktop<A, M, R>,
    message: Message<A, M, R>,
    now: Timestamp,
) -> (commands: Vec<Command<A, M, R>>)
    ensures
        handled(*old(state), message, now, *final(state), commands@),
{
    match message {
        // What concerns one page only is left to that page.
        Message::LoginPage(m) => state.handle_login_page(m),
        Message::ModulesPage(m) => {
            let mut commands = Vec::new();
            match m {
                ModuleMessage::RefreshModules => {
                    commands.push(Command::Send(Message::LoadModules(())));
                },
            }
            commands
        },
        Message::ResourcesPage((resource_type, m)) => {
            let mut commands = Vec::new();
            match state.pages.resources_page(resource_type).update(m) {
                ResourcesRequest::LoadResources(t) => {
                    commands.push(Command::Send(Message::LoadResources(t)));
                },
                ResourcesRequest::ResourceMessage(t, module_id, path, m) => {
                    commands.push(Command::Send(Message::ResourceMessage((t, module_id, path, m))));
                },
            }
            commands
        },
        Message::SettingsPage(m) => state.handle_settings_page(m),
        Message::Header(m) => {
            let mut commands = Vec::new();
            match m {
                HeaderMessage::SwitchPage(page) => {
                    commands.push(Command::Send(Message::SwitchPage(page)));
                },
            }
            commands
        },
        Message::SwitchPage(page) => {
            state.current_page = page;
            Vec::new()
        },
        Message::ToggleSaveUsername(save) => {
            state.settings.set_save_username(save);
            state.save_settings()
        },
        Message::ToggleSavePassword(save) => {
            state.settings.set_save_password(save);
            state.save_settings()
        },
        Message::ChangeDownloadLocation => {
            let mut commands = Vec::new();
            commands.push(Command::ChooseDownloadLocation);
            commands
        },
        Message::DownloadLocationChosen(chosen) => state.handle_download_location(chosen),
        Message::SettingsLoaded(loaded) => state.handle_settings_loaded(loaded),
        Message::DataLoaded(loaded) => state.handle_data_loaded(loaded),
        Message::SettingsSaved(outcome) => state.handle_settings_saved(outcome),
        Message::DataSaved(outcome) => state.handle_data_saved(outcome),
        // After a login the resources of every category are fetched.
        Message::LoadedAPI(login) => state.handle_login(login),
        Message::LoadModules(_) => state.handle_load_modules(now),
        Message::LoadedModules(fetched) => state.handle_modules_loaded(fetched),
        Message::LoadResources(resource_type) => state.handle_load_resources(resource_type, now),
        Message::LoadedResources((resource_type, fetched)) => state.handle_resources_loaded(
            resource_type,
            fetched,
        ),
        Message::ResourceMessage((resource_type, module_id, path, m)) => match m {
            ResourceMessage::DownloadResource => state.request_download(
                resource_type,
                module_id,
                path,
            ),
            ResourceMessage::OpenResource => {
                let mut commands = Vec::new();
                commands.push(Command::Open { path });
                commands
            },
        },
        Message::ResourceDownloaded((resource_type, module_id, path, outcome)) => {
            state.handle_download(resource_type, module_id, path, outcome, now)
        },
        Message::OpenFileResult(_) => Vec::new(),
    }
}

} // verus!
