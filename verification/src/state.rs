//! Application state: the configuration and the remote auth token.
use vstd::prelude::*;

use crate::config::{copy_opt_remote, opt_remote_view, AppConfig, AppConfigView, RemoteConfig, RemoteConfigView};
use crate::serializer::{copy_opt_string, opt_str_view};

verus! {

/// The configuration and the auth token sent with remote requests.
pub struct AppState {
    config: AppConfig,
    auth_token: Option<String>,
}

pub struct AppStateView {
    pub config: AppConfigView,
    pub auth_token: Option<Seq<char>>,
}

impl View for AppState {
    type V = AppStateView;

    closed spec fn view(&self) -> AppStateView {
        AppStateView { config: self.config@, auth_token: opt_str_view(self.auth_token) }
    }
}

/// The state with the given auth token and everything else as it was.
pub open spec fn with_auth_token(s: AppStateView, token: Option<Seq<char>>) -> AppStateView {
    AppStateView { auth_token: token, ..s }
}

impl AppState {
    /// A state with the given configuration and no auth token.
    pub fn new(config: AppConfig) -> (r: AppState)
        ensures
            r@ == (AppStateView { config: config@, auth_token: None }),
    {
        AppState { config, auth_token: None }
    }

    /// A copy of the configuration.
    pub fn config(&self) -> (r: AppConfig)
        ensures
            r@ == self@.config,
    {
        self.config.copy_config()
    }

    /// The remote configuration, if any.
    pub fn remote_config(&self) -> (r: Option<RemoteConfig>)
        ensures
            opt_remote_view(r) == self@.config.remote,
    {
        copy_opt_remote(&self.config.remote)
    }

    /// The remote configuration, if any, without a copy.
    pub fn remote_config_ref(&self) -> (r: &Option<RemoteConfig>)
        ensures
            opt_remote_view(*r) == self@.config.remote,
    {
        &self.config.remote
    }

    /// Replaces the remote configuration; nothing else changes.
    pub fn set_remote_config(&mut self, remote: Option<RemoteConfig>)
        ensures
            final(self)@ == (AppStateView {
                config: AppConfigView { remote: opt_remote_view(remote), ..old(self)@.config },
                ..old(self)@
            }),
    {
        self.config.remote = remote;
    }

    /// Stores the auth token; nothing else changes.
    pub fn set_auth_token(&mut self, token: String)
        ensures
            final(self)@ == with_auth_token(old(self)@, Some(token@)),
    {
        self.auth_token = Some(token);
    }

    /// Forgets the auth token; nothing else changes.
    pub fn clear_auth_token(&mut self)
        ensures
            final(self)@ == with_auth_token(old(self)@, None),
    {
        self.auth_token = None;
    }

    /// A copy of the auth token, if one is stored.
    pub fn auth_token(&self) -> (r: Option<String>)
        ensures
            opt_str_view(r) == self@.auth_token,
    {
        copy_opt_string(&self.auth_token)
    }

    /// Whether an auth token is stored.
    pub fn is_authenticated(&self) -> (r: bool)
        ensures
            r == (self@.auth_token is Some),
    {
        self.auth_token.is_some()
    }
}

} // verus!
