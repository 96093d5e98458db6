//! The handle that a command works through: the login, the settings of the
//! client that talks to the server, and where the selection is kept.

use vstd::prelude::*;
use vstd::string::StringExecFns;
use crate::config::{
    config_dir_name, config_file_name, is_logged_in, join_path, joined, Config, ConfigView,
};
use crate::error::{Error, ErrorView};

verus! {

/// What a client needs to talk to the server.
#[derive(Clone, Debug)]
pub struct ClientSettings {
    /// The address of the server's interface.
    pub base_url: String,
    /// The key, sent with every request in the header `x-api-key`.
    pub api_key: String,
}

/// Client settings as plain values.
pub ghost struct ClientSettingsView {
    pub base_url: Seq<char>,
    pub api_key: Seq<char>,
}

impl View for ClientSettings {
    type V = ClientSettingsView;

    open spec fn view(&self) -> ClientSettingsView {
        ClientSettingsView { base_url: self.base_url@, api_key: self.api_key@ }
    }
}

/// The handle that a command works through.
#[derive(Debug)]
pub struct ImmichCtl {
    config: Config,
    immich: Option<ClientSettings>,
    assets_file: String,
}

/// The settings of the client for a login: the server's address with `/api`
/// behind it, and the key. None while logged out.
pub open spec fn client_for(config: ConfigView) -> Option<ClientSettingsView> {
    if is_logged_in(config) {
        Some(ClientSettingsView { base_url: config.server + "/api"@, api_key: config.apikey })
    } else {
        None
    }
}

/// The login of the handle for the directory `config_dir`: kept there in the
/// login file, with server and key as in `stored`, or logged out where
/// nothing is stored.
pub open spec fn handle_config(config_dir: Seq<char>, stored: Option<(String, String)>)
    -> ConfigView {
    ConfigView {
        config_file: joined(config_dir, config_file_name()),
        server: match stored {
            Some(pair) => pair.0@,
            None => Seq::empty(),
        },
        apikey: match stored {
            Some(pair) => pair.1@,
            None => Seq::empty(),
        },
    }
}

/// The name of the file that keeps the selection, in its directory.
pub open spec fn assets_file_name() -> Seq<char> {
    "assets.json"@
}

impl ImmichCtl {
    /// The login.
    pub closed spec fn config_view(&self) -> ConfigView {
        self.config@
    }

    /// The path of the file that keeps the selection.
    pub closed spec fn assets_path(&self) -> Seq<char> {
        self.assets_file@
    }

    /// The settings of the client, where there is one.
    pub closed spec fn client(&self) -> Option<ClientSettingsView> {
        match self.immich {
            Some(settings) => Some(settings@),
            None => None,
        }
    }

    /// The directory that keeps login and selection where none is named:
    /// `.immichctl` in the user's home directory.
    pub fn get_default_config_dir(home_dir: Option<&str>) -> (r: Result<String, Error>)
        ensures
            match home_dir {
                Some(home) => r is Ok && r->Ok_0@ == joined(home@, config_dir_name()),
                None => r is Err && r->Err_0@ == ErrorView::NoHomeDirectory,
            },
    {
        match home_dir {
            Some(home) => Ok(join_path(home, ".immichctl")),
            None => Err(Error::NoHomeDirectory),
        }
    }

    /// The path of the file that keeps the login, in `config_dir`.
    pub fn config_file_in(config_dir: &str) -> (path: String)
        ensures
            path@ == joined(config_dir@, config_file_name()),
    {
        join_path(config_dir, "config.json")
    }

    /// The settings of the client for `config`.
    pub fn build_client(config: &Config) -> (r: Result<ClientSettings, Error>)
        ensures
            match r {
                Ok(settings) => client_for(config@) == Some(settings@),
                Err(e) => client_for(config@) is None && e@ == ErrorView::NotLoggedIn,
            },
    {
        if !config.logged_in() {
            return Err(Error::NotLoggedIn);
        }
        let base_url = config.server.clone().concat("/api");
        Ok(ClientSettings { base_url, api_key: config.apikey.clone() })
    }

    /// The handle for the user's home directory `home_dir`. `stored` is the
    /// server and key that the login file there held, if it could be read.
    pub fn new(home_dir: &str, stored: Option<(String, String)>) -> (ctl: ImmichCtl)
        ensures
            ctl.config_view() == handle_config(joined(home_dir@, config_dir_name()), stored),
            ctl.assets_path() == joined(joined(home_dir@, config_dir_name()), assets_file_name()),
            ctl.client() == client_for(ctl.config_view()),
    {
        let config_dir = join_path(home_dir, ".immichctl");
        Self::with_config_dir(config_dir.as_str(), stored)
    }

    /// The handle for the directory `config_dir`: the login is kept there in
    /// `config.json`, the selection in `assets.json`. `stored` is the server
    /// and key that the login file held, if it could be read.
    pub fn with_config_dir(config_dir: &str, stored: Option<(String, String)>) -> (ctl: ImmichCtl)
        ensures
            ctl.config_view() == handle_config(config_dir@, stored),
            ctl.assets_path() == joined(config_dir@, assets_file_name()),
            ctl.client() == client_for(ctl.config_view()),
    {
        let config_file = Self::config_file_in(config_dir);
        let config = Config::load(config_file.as_str(), stored);
        let assets_file = join_path(config_dir, "assets.json");
        let immich = match Self::build_client(&config) {
            Ok(settings) => Some(settings),
            Err(_) => None,
        };
        ImmichCtl { config, immich, assets_file }
    }

    /// The login.
    pub fn config(&self) -> (config: &Config)
        ensures
            config@ == self.config_view(),
    {
        &self.config
    }

    /// The path of the file that keeps the selection.
    pub fn assets_file(&self) -> (path: &String)
        ensures
            path@ == self.assets_path(),
    {
        &self.assets_file
    }

    /// The settings of the client, while logged in.
    pub fn immich(&self) -> (r: Result<&ClientSettings, Error>)
        ensures
            match r {
                Ok(settings) => self.client() == Some(settings@),
                Err(e) => self.client() is None && e@ == ErrorView::NotLoggedIn,
            },
    {
        match &self.immich {
            Some(settings) => Ok(settings),
            None => Err(Error::NotLoggedIn),
        }
    }

    /// Refuses where no server and key are there.
    pub fn assert_logged_in(&self) -> (r: Result<(), Error>)
        ensures
            r is Ok <==> is_logged_in(self.config_view()),
            r matches Err(e) ==> e@ == ErrorView::NotLoggedIn,
    {
        if !self.config.logged_in() {
            return Err(Error::NotLoggedIn);
        }
        Ok(())
    }

    /// Logs in with `server` and `apikey`: the login and the client's
    /// settings are replaced. Refused where either is empty.
    pub fn login(&mut self, server: &str, apikey: &str) -> (r: Result<(), Error>)
        ensures
            final(self).assets_path() == old(self).assets_path(),
            match r {
                Ok(()) => {
                    &&& server@.len() > 0 && apikey@.len() > 0
                    &&& final(self).config_view() == (ConfigView {
                        server: server@,
                        apikey: apikey@,
                        ..old(self).config_view()
                    })
                    &&& final(self).client() == client_for(final(self).config_view())
                },
                Err(e) => {
                    &&& server@.len() == 0 || apikey@.len() == 0
                    &&& e@ == ErrorView::NotLoggedIn
                    &&& final(self).config_view() == old(self).config_view()
                    &&& final(self).client() == old(self).client()
                },
            },
    {
        let config = Config {
            config_file: self.config.config_file.clone(),
            server: server.to_owned(),
            apikey: apikey.to_owned(),
        };
        match Self::build_client(&config) {
            Ok(settings) => {
                self.config = config;
                self.immich = Some(settings);
                Ok(())
            },
            Err(e) => Err(e),
        }
    }

    /// Forgets server and key. The client's settings stay until the handle
    /// is made anew.
    pub fn logout(&mut self)
        ensures
            final(self).config_view() == (ConfigView {
                server: Seq::empty(),
                apikey: Seq::empty(),
                ..old(self).config_view()
            }),
            final(self).client() == old(self).client(),
            final(self).assets_path() == old(self).assets_path(),
    {
        self.config.logout();
    }
}

} // verus!
