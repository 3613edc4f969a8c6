//! The settings page.

use vstd::prelude::*;
use crate::pages::Page;

verus! {

/// What the settings page holds: whether the user is choosing a download
/// location right now.
#[derive(Debug, Clone, Copy, PartialEq, Eq, Structural)]
pub struct SettingsPage {
    pub is_changing_download_location: bool,
}

/// What happens on the settings page.
#[derive(Debug, Clone, Copy, PartialEq, Eq, Structural)]
pub enum SettingsMessage {
    SwitchPage(Page),
    ToggleSaveUsername(bool),
    ToggleSavePassword(bool),
    ChangeDownloadLocation,
    DownloadLocationChanged,
}

/// What the settings page asks the client to do.
#[derive(Debug, Clone, Copy, PartialEq, Eq, Structural)]
pub enum SettingsRequest {
    SwitchPage(Page),
    ToggleSaveUsername(bool),
    ToggleSavePassword(bool),
    ChangeDownloadLocation,
}

impl SettingsPage {
    /// The page while no download location is being chosen.
    pub fn default() -> (p: Self)
        ensures
            !p.is_changing_download_location,
    {
        SettingsPage { is_changing_download_location: false }
    }

    /// Takes note of what happened on the page and passes the user's wish
    /// on. The page remembers that a download location is being chosen from
    /// the request until the choice is reported.
    pub fn update(&mut self, message: SettingsMessage) -> (request: Option<SettingsRequest>)
        ensures
            final(self).is_changing_download_location == match message {
                SettingsMessage::ChangeDownloadLocation => true,
                SettingsMessage::DownloadLocationChanged => false,
                _ => old(self).is_changing_download_location,
            },
            request == match message {
                SettingsMessage::SwitchPage(page) => Some(SettingsRequest::SwitchPage(page)),
                SettingsMessage::ToggleSaveUsername(save) => Some(
                    SettingsRequest::ToggleSaveUsername(save),
                ),
                SettingsMessage::ToggleSavePassword(save) => Some(
                    SettingsRequest::ToggleSavePassword(save),
                ),
                SettingsMessage::ChangeDownloadLocation => Some(
                    SettingsRequest::ChangeDownloadLocation,
                ),
                SettingsMessage::DownloadLocationChanged => None,
            },
    {
        match message {
            SettingsMessage::SwitchPage(page) => Some(SettingsRequest::SwitchPage(page)),
            SettingsMessage::ToggleSaveUsername(save) => Some(
                SettingsRequest::ToggleSaveUsername(save),
            ),
            SettingsMessage::ToggleSavePassword(save) => Some(
                SettingsRequest::ToggleSavePassword(save),
            ),
            SettingsMessage::ChangeDownloadLocation => {
                self.is_changing_download_location = true;
                Some(SettingsRequest::ChangeDownloadLocation)
            },
            SettingsMessage::DownloadLocationChanged => {
                self.is_changing_download_location = false;
                None
            },
        }
    }
}

} // verus!
