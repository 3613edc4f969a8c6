//! The user's settings: the login to remember and where downloads go.

use vstd::prelude::*;
use vstd::string::StringExecFns;
use crate::storage::Storage;
use crate::text::text_of;
use crate::storage::SaveStep;
use crate::storage::StorageWrite;
use crate::storage::Error;
use crate::storage::save_step;

verus! {

/// What the settings hold, as plain values.
pub struct SettingsView {
    pub username: Option<Seq<char>>,
    pub password: Option<Seq<char>>,
    pub save_username: bool,
    pub save_password: bool,
    pub download_location: Option<Seq<char>>,
    pub dirty: bool,
    pub saving: bool,
}

/// The settings. A name or a password is kept only while the user wants it
/// remembered. The two flags at the end describe the running session and are
/// never stored.
#[derive(Debug, Clone)]
pub struct Settings {
    username: Option<String>,
    password: Option<String>,
    save_username: bool,
    save_password: bool,
    download_location: Option<String>,
    dirty: bool,
    saving: bool,
}

impl View for Settings {
    type V = SettingsView;

    closed spec fn view(&self) -> SettingsView {
        SettingsView {
            username: text_of(self.username),
            password: text_of(self.password),
            save_username: self.save_username,
            save_password: self.save_password,
            download_location: text_of(self.download_location),
            dirty: self.dirty,
            saving: self.saving,
        }
    }
}

impl SettingsView {
    /// The settings after the user chose whether the name is remembered.
    pub open spec fn with_save_username(self, save_username: bool) -> SettingsView {
        if save_username == self.save_username {
            self
        } else {
            SettingsView {
                save_username,
                username: if save_username {
                    self.username
                } else {
                    None
                },
                dirty: true,
                ..self
            }
        }
    }

    /// The settings after the user chose whether the password is remembered.
    pub open spec fn with_save_password(self, save_password: bool) -> SettingsView {
        if save_password == self.save_password {
            self
        } else {
            SettingsView {
                save_password,
                password: if save_password {
                    self.password
                } else {
                    None
                },
                dirty: true,
                ..self
            }
        }
    }

    /// The settings after a login with `username` and `password`.
    pub open spec fn with_login_details(
        self,
        username: Seq<char>,
        password: Seq<char>,
    ) -> SettingsView {
        SettingsView {
            username: if self.save_username {
                Some(username)
            } else {
                self.username
            },
            password: if self.save_password {
                Some(password)
            } else {
                self.password
            },
            dirty: true,
            ..self
        }
    }

    /// The settings after downloads were sent to `download_location`.
    pub open spec fn with_download_location(self, download_location: Seq<char>) -> SettingsView {
        SettingsView { download_location: Some(download_location), dirty: true, ..self }
    }

    /// The settings with the two flags set as given.
    pub open spec fn with_flags(self, dirty: bool, saving: bool) -> SettingsView {
        SettingsView { dirty, saving, ..self }
    }

    /// The settings after a request to save: a write takes the snapshot,
    /// which clears `dirty` and sets `saving`; otherwise nothing changes.
    pub open spec fn after_save(self) -> SettingsView {
        if save_step(self.dirty, self.saving) == SaveStep::Write {
            self.with_flags(false, true)
        } else {
            self
        }
    }

    /// The settings after a request to save has ended with `outcome`: a
    /// request that has to be tried again is made again, one that found
    /// nothing to do leaves no trace, and a write that went through or failed
    /// is over.
    pub open spec fn after_saved(self, outcome: Result<StorageWrite, Error>) -> SettingsView {
        match outcome {
            Ok(StorageWrite::Retry) => self.after_save(),
            Ok(StorageWrite::Unnecessary) => self,
            _ => self.with_flags(self.dirty, false),
        }
    }
}

/// The directory below the user's download directory that downloads go to
/// unless the user picks another.
pub fn default_download_dir(user_download_dir: &str) -> (dir: String)
    ensures
        dir@ == user_download_dir@ + "/LumiNUS"@,
{
    String::from_str(user_download_dir).concat("/LumiNUS")
}

impl Settings {
    /// The settings of a first start: the name is remembered and the
    /// password is not, and downloads go below `user_download_dir`.
    pub fn default(user_download_dir: &str) -> (s: Self)
        ensures
            s@ == (SettingsView {
                username: None,
                password: None,
                save_username: true,
                save_password: false,
                download_location: Some(user_download_dir@ + "/LumiNUS"@),
                dirty: false,
                saving: false,
            }),
    {
        Settings {
            username: None,
            password: None,
            // The name is remembered by default, the password is not.
            save_username: true,
            save_password: false,
            download_location: Some(default_download_dir(user_download_dir)),
            dirty: false,
            saving: false,
        }
    }

    /// The settings as read back from storage, with both flags clear.
    pub fn restored(
        username: Option<String>,
        password: Option<String>,
        save_username: bool,
        save_password: bool,
        download_location: Option<String>,
    ) -> (s: Self)
        ensures
            s@ == (SettingsView {
                username: text_of(username),
                password: text_of(password),
                save_username,
                save_password,
                download_location: text_of(download_location),
                dirty: false,
                saving: false,
            }),
    {
        Settings {
            username,
            password,
            save_username,
            save_password,
            download_location,
            dirty: false,
            saving: false,
        }
    }

    /// Chooses whether the name is remembered. A change marks the settings as
    /// changed, and no longer remembering forgets the name.
    pub fn set_save_username(&mut self, save_username: bool)
        ensures
            final(self)@ == old(self)@.with_save_username(save_username),
    {
        if self.save_username != save_username {
            self.save_username = save_username;
            if !save_username && self.username.is_some() {
                self.username = None;
            }
            self.dirty = true;
        }
    }

    /// Chooses whether the password is remembered. A change marks the
    /// settings as changed, and no longer remembering forgets the password.
    pub fn set_save_password(&mut self, save_password: bool)
        ensures
            final(self)@ == old(self)@.with_save_password(save_password),
    {
        if self.save_password != save_password {
            self.save_password = save_password;
            if !save_password && self.password.is_some() {
                self.password = None;
            }
            self.dirty = true;
        }
    }

    /// Takes note of a login: the name and the password are kept as far as
    /// they are to be remembered, and the settings count as changed.
    pub fn set_login_details(&mut self, username: String, password: String)
        ensures
            final(self)@ == old(self)@.with_login_details(username@, password@),
    {
        if self.save_username {
            self.username = Some(username);
        }
        if self.save_password {
            self.password = Some(password);
        }
        self.dirty = true;
    }

    /// Sends downloads to `download_location` from now on.
    pub fn set_download_location(&mut self, download_location: String)
        ensures
            final(self)@ == old(self)@.with_download_location(download_location@),
    {
        self.download_location = Some(download_location);
        self.dirty = true;
    }

    /// The remembered name.
    pub fn get_username(&self) -> (r: &Option<String>)
        ensures
            text_of(*r) == self@.username,
    {
        &self.username
    }

    /// The remembered password.
    pub fn get_password(&self) -> (r: &Option<String>)
        ensures
            text_of(*r) == self@.password,
    {
        &self.password
    }

    /// Whether the name is remembered.
    pub fn get_save_username(&self) -> (r: bool)
        ensures
            r == self@.save_username,
    {
        self.save_username
    }

    /// Whether the password is remembered.
    pub fn get_save_password(&self) -> (r: bool)
        ensures
            r == self@.save_password,
    {
        self.save_password
    }

    /// Where downloads go.
    pub fn get_download_location(&self) -> (r: &Option<String>)
        ensures
            text_of(*r) == self@.download_location,
    {
        &self.download_location
    }

    /// Asks for a save and hands back its step.
    pub fn request_save(&mut self) -> (step: SaveStep)
        ensures
            step == save_step(old(self)@.dirty, old(self)@.saving),
            final(self)@ == old(self)@.after_save(),
    {
        proof {
            self.lemma_with_flags(false, true);
        }
        self.save()
    }

    /// Takes note of how a request to save ended, and hands back the step of
    /// the next request where one has to be made.
    pub fn note_saved(&mut self, outcome: Result<StorageWrite, Error>) -> (next: Option<SaveStep>)
        ensures
            final(self)@ == old(self)@.after_saved(outcome),
            next == (match outcome {
                Ok(StorageWrite::Retry) => Some(save_step(old(self)@.dirty, old(self)@.saving)),
                _ => None,
            }),
    {
        proof {
            self.lemma_with_flags(false, true);
            self.lemma_with_flags(self.dirty(), false);
        }
        self.saved(outcome)
    }

    /// Setting the flags changes nothing else.
    pub proof fn lemma_with_flags(&self, dirty: bool, saving: bool)
        ensures
            self.with_flags(dirty, saving)@ == self@.with_flags(dirty, saving),
            self.dirty() == self@.dirty,
            self.saving() == self@.saving,
    {
        assert(self.with_flags(self.dirty(), self.saving()) == *self);
    }
}

impl Storage for Settings {
    closed spec fn dirty(&self) -> bool {
        self.dirty
    }

    closed spec fn saving(&self) -> bool {
        self.saving
    }

    closed spec fn with_flags(&self, dirty: bool, saving: bool) -> Self {
        Settings {
            username: self.username,
            password: self.password,
            save_username: self.save_username,
            save_password: self.save_password,
            download_location: self.download_location,
            dirty,
            saving,
        }
    }

    proof fn lemma_flags(&self, dirty: bool, saving: bool, dirty2: bool, saving2: bool) {
        assert(self.with_flags(self.dirty(), self.saving()) == *self);
    }

    fn file_name() -> (name: String)
        ensures
            name@ == "settings.json"@,
    {
        String::from_str("settings.json")
    }

    fn get_dirty(&mut self) -> (flag: &mut bool) {
        assert(self.with_flags(self.dirty(), self.saving()) == *self);
        &mut self.dirty
    }

    fn get_saving(&mut self) -> (flag: &mut bool) {
        assert(self.with_flags(self.dirty(), self.saving()) == *self);
        &mut self.saving
    }
}

} // verus!
