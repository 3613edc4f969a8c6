//! The pages of the client, as far as they decide anything.

pub mod loading;
pub mod login;
pub mod resources;
pub mod settings;

use vstd::prelude::*;
use crate::pages::loading::LoadingPage;
use crate::pages::login::LoginPage;
use crate::pages::login::LoginState;
use crate::pages::resources::ResourcesPage;
use crate::pages::settings::SettingsPage;
use crate::resource::ResourceType;

verus! {

/// The pages that the client shows.
#[derive(Debug, Clone, Copy, PartialEq, Eq, Structural)]
pub enum Page {
    Loading,
    Login,
    Settings,
    Modules,
    Files,
    Multimedia,
    Weblectures,
    Conferences,
}

/// The state of every page.
#[derive(Debug)]
pub struct Pages {
    pub loading: LoadingPage,
    pub login: LoginPage,
    pub settings: SettingsPage,
    pub files: ResourcesPage,
    pub multimedia: ResourcesPage,
    pub weblectures: ResourcesPage,
    pub conferences: ResourcesPage,
}

impl Pages {
    /// The page that lists the resources of `resource_type`.
    pub open spec fn resources(&self, resource_type: ResourceType) -> ResourcesPage {
        match resource_type {
            ResourceType::File => self.files,
            ResourceType::Multimedia => self.multimedia,
            ResourceType::Weblecture => self.weblectures,
            ResourceType::Conference => self.conferences,
        }
    }

    /// Every page lists the category that it is named after.
    pub open spec fn well_formed(&self) -> bool {
        forall|t: ResourceType| (#[trigger] self.resources(t)).resource_type == t
    }

    /// The pages at the start: nobody has typed or chosen anything.
    pub fn default() -> (p: Self)
        ensures
            p.well_formed(),
            p.login.username@ == Seq::<char>::empty(),
            p.login.password@ == Seq::<char>::empty(),
            p.login.login_state == LoginState::Initial,
            !p.settings.is_changing_download_location,
    {
        Pages {
            loading: LoadingPage::default(),
            login: LoginPage::default(),
            settings: SettingsPage::default(),
            files: ResourcesPage::default(ResourceType::File),
            multimedia: ResourcesPage::default(ResourceType::Multimedia),
            weblectures: ResourcesPage::default(ResourceType::Weblecture),
            conferences: ResourcesPage::default(ResourceType::Conference),
        }
    }

    /// The page that lists the resources of `resource_type`.
    pub fn resources_page(&self, resource_type: ResourceType) -> (page: &ResourcesPage)
        ensures
            *page == self.resources(resource_type),
    {
        match resource_type {
            ResourceType::File => &self.files,
            ResourceType::Multimedia => &self.multimedia,
            ResourceType::Weblecture => &self.weblectures,
            ResourceType::Conference => &self.conferences,
        }
    }
}

} // verus!
