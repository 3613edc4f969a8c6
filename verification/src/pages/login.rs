//! The login page: what was typed, and how the login goes.

use vstd::prelude::*;
use crate::utils::clean_username;
use crate::utils::domain_name;
use crate::utils::lowercase;

verus! {

/// What the login page holds.
#[derive(Debug)]
pub struct LoginPage {
    pub username: String,
    pub password: String,
    pub login_state: LoginState,
}

/// What happens on the login page.
#[derive(Debug, Clone)]
pub enum LoginMessage {
    UsernameEdited(String),
    PasswordEdited(String),
    Submit,
    Failed,
}

/// How the login goes.
#[derive(Debug, Clone, Copy, PartialEq, Eq, Structural)]
pub enum LoginState {
    Initial,
    SigningIn,
    Error,
}

/// The name and the password to log in with.
#[derive(Debug)]
pub struct Credentials {
    pub username: String,
    pub password: String,
}

impl LoginPage {
    /// The page before anything was typed.
    pub fn default() -> (p: Self)
        ensures
            p.username@ == Seq::<char>::empty(),
            p.password@ == Seq::<char>::empty(),
            p.login_state == LoginState::Initial,
    {
        LoginPage { username: String::new(), password: String::new(), login_state: LoginState::Initial }
    }

    /// Takes note of what happened on the page. Submitting starts a login
    /// with the name in the form that the remote source wants and the
    /// password as typed; nothing else asks for anything.
    pub fn update(&mut self, message: LoginMessage) -> (login: Option<Credentials>)
        ensures
            match message {
                LoginMessage::UsernameEdited(username) => {
                    &&& *final(self) == (LoginPage { username, ..*old(self) })
                    &&& login is None
                },
                LoginMessage::PasswordEdited(password) => {
                    &&& *final(self) == (LoginPage { password, ..*old(self) })
                    &&& login is None
                },
                LoginMessage::Submit => {
                    &&& *final(self) == (LoginPage {
                        login_state: LoginState::SigningIn,
                        ..*old(self)
                    })
                    &&& login is Some
                    &&& login->0.username@ == domain_name(lowercase(old(self).username@))
                    &&& login->0.password == old(self).password
                },
                LoginMessage::Failed => {
                    &&& *final(self) == (LoginPage { login_state: LoginState::Error, ..*old(self) })
                    &&& login is None
                },
            },
    {
        match message {
            LoginMessage::UsernameEdited(username) => {
                self.username = username;
                None
            },
            LoginMessage::PasswordEdited(password) => {
                self.password = password;
                None
            },
            LoginMessage::Submit => {
                self.login_state = LoginState::SigningIn;
                Some(
                    Credentials {
                        username: clean_username(self.username.as_str()),
                        password: self.password.clone(),
                    },
                )
            },
            LoginMessage::Failed => {
                self.login_state = LoginState::Error;
                None
            },
        }
    }
}

} // verus!
