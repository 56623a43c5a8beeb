//! Application configuration: the database and the optional remote REST API.
use vstd::prelude::*;

use crate::serializer::{copy_opt_string, opt_str_view};

verus! {

pub struct DatabaseConfig {
    pub url: String,
}

pub struct RemoteConfig {
    pub base_url: String,
    /// The path of the token login endpoint, such as `/api-token-auth/`.
    pub auth_path: Option<String>,
}

pub struct AppConfig {
    pub database: DatabaseConfig,
    pub remote: Option<RemoteConfig>,
}

pub struct RemoteConfigView {
    pub base_url: Seq<char>,
    pub auth_path: Option<Seq<char>>,
}

pub struct AppConfigView {
    pub database_url: Seq<char>,
    pub remote: Option<RemoteConfigView>,
}

impl View for RemoteConfig {
    type V = RemoteConfigView;

    open spec fn view(&self) -> RemoteConfigView {
        RemoteConfigView { base_url: self.base_url@, auth_path: opt_str_view(self.auth_path) }
    }
}

pub open spec fn opt_remote_view(r: Option<RemoteConfig>) -> Option<RemoteConfigView> {
    match r {
        Some(c) => Some(c@),
        None => None,
    }
}

impl View for AppConfig {
    type V = AppConfigView;

    open spec fn view(&self) -> AppConfigView {
        AppConfigView { database_url: self.database.url@, remote: opt_remote_view(self.remote) }
    }
}

impl RemoteConfig {
    pub fn copy_remote(&self) -> (r: RemoteConfig)
        ensures
            r@ == self@,
    {
        RemoteConfig { base_url: self.base_url.clone(), auth_path: copy_opt_string(&self.auth_path) }
    }
}

pub fn copy_opt_remote(r: &Option<RemoteConfig>) -> (o: Option<RemoteConfig>)
    ensures
        opt_remote_view(o) == opt_remote_view(*r),
{
    match r {
        Some(c) => Some(c.copy_remote()),
        None => None,
    }
}

impl AppConfig {
    pub fn copy_config(&self) -> (r: AppConfig)
        ensures
            r@ == self@,
    {
        AppConfig { database: DatabaseConfig { url: self.database.url.clone() }, remote: copy_opt_remote(&self.remote) }
    }
}

} // verus!
