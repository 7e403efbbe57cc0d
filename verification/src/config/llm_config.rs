//! Which engine answers: a local model or a remote service.

use vstd::prelude::*;

verus! {

/// The engine that answers.
#[derive(Debug)]
pub enum Engine {
    /// A model on this machine, by its path.
    Local(String),
    /// A remote service.
    Api(Api),
}

/// How a remote service is reached.
#[derive(Debug)]
pub struct Api {
    pub endpoint: String,
    pub key: String,
}

/// The settings as they stand in the settings file.
#[derive(Debug)]
pub struct Config {
    /// `api` for a remote service; anything else means a local model.
    pub engine: String,
    pub local_model_path: Option<String>,
    pub api_endpoint: Option<String>,
    pub api_key: Option<String>,
}

/// Why settings cannot be used.
#[derive(Clone, Copy, Debug, PartialEq, Eq, Structural)]
pub enum ConfigError {
    /// The settings name a remote service and the environment holds no key
    /// for it.
    MissingApiKey,
}

impl Config {
    /// Whether the settings name a remote service.
    pub open spec fn is_api(self) -> bool {
        self.engine@ == "api"@
    }

    /// Whether the settings hold all that their engine needs: endpoint and
    /// key for a remote service, the model's path for a local model.
    pub open spec fn is_complete(self) -> bool {
        if self.is_api() {
            self.api_endpoint is Some && self.api_key is Some
        } else {
            self.local_model_path is Some
        }
    }

    /// The engine that complete settings name.
    pub open spec fn engine_of(self) -> Engine {
        if self.is_api() {
            Engine::Api(Api { endpoint: self.api_endpoint->0, key: self.api_key->0 })
        } else {
            Engine::Local(self.local_model_path->0)
        }
    }

    /// Tests [`Config::is_api`].
    pub fn names_api(&self) -> (r: bool)
        ensures
            r == self.is_api(),
    {
        self.engine == "api".to_owned()
    }

    /// Tests [`Config::is_complete`].
    pub fn has_engine(&self) -> (r: bool)
        ensures
            r == self.is_complete(),
    {
        if self.names_api() {
            self.api_endpoint.is_some() && self.api_key.is_some()
        } else {
            self.local_model_path.is_some()
        }
    }

    /// The engine that the settings name.
    pub fn engine(&self) -> (r: Engine)
        requires
            self.is_complete(),
        ensures
            r == self.engine_of(),
    {
        if self.names_api() {
            Engine::Api(
                Api {
                    endpoint: self.api_endpoint.as_ref().unwrap().clone(),
                    key: self.api_key.as_ref().unwrap().clone(),
                },
            )
        } else {
            Engine::Local(self.local_model_path.as_ref().unwrap().clone())
        }
    }

    /// The settings once the environment was asked for the service's key:
    /// settings that name a remote service take the key of the environment
    /// in place of their own and fail where it holds none; other settings
    /// stay as they are.
    pub fn with_environment_key(self, key: Option<String>) -> (r: Result<Config, ConfigError>)
        ensures
            !self.is_api() ==> r == Ok::<Config, ConfigError>(self),
            self.is_api() && key is None ==> r == Err::<Config, ConfigError>(
                ConfigError::MissingApiKey,
            ),
            self.is_api() && key is Some ==> r == Ok::<Config, ConfigError>(
                Config { api_key: key, ..self },
            ),
    {
        if self.names_api() {
            match key {
                Some(found) => Ok(
                    Config {
                        engine: self.engine,
                        local_model_path: self.local_model_path,
                        api_endpoint: self.api_endpoint,
                        api_key: Some(found),
                    },
                ),
                None => Err(ConfigError::MissingApiKey),
            }
        } else {
            Ok(self)
        }
    }
}

} // verus!
