//! How to reach the Kimi API.
use vstd::prelude::*;

verus! {

/// The settings of the Kimi API.
#[derive(Debug, Clone)]
pub struct KimiConfig {
    pub api_key: String,
    pub base_url: String,
    pub user_agent: String,
}

impl KimiConfig {
    pub const DEFAULT_BASE_URL: &'static str = "https://api.kimi.com/coding/v1";

    pub const DEFAULT_USER_AGENT: &'static str = "KimiCLI/1.1.1";

    /// The default settings, with that key.
    pub fn new<T: Into<String>>(api_key: T) -> (r: Self)
        ensures
            call_ensures(T::into, (api_key,), r.api_key),
            r.base_url@ == "https://api.kimi.com/coding/v1"@,
            r.user_agent@ == "KimiCLI/1.1.1"@,
    {
        Self {
            api_key: api_key.into(),
            base_url: Self::DEFAULT_BASE_URL.to_owned(),
            user_agent: Self::DEFAULT_USER_AGENT.to_owned(),
        }
    }

    /// The same settings, with another address of the API.
    pub fn with_base_url<T: Into<String>>(self, base_url: T) -> (r: Self)
        ensures
            call_ensures(T::into, (base_url,), r.base_url),
            r.api_key == self.api_key,
            r.user_agent == self.user_agent,
    {
        Self { api_key: self.api_key, base_url: base_url.into(), user_agent: self.user_agent }
    }

    /// The same settings, with another name of the client.
    pub fn with_user_agent<T: Into<String>>(self, user_agent: T) -> (r: Self)
        ensures
            call_ensures(T::into, (user_agent,), r.user_agent),
            r.api_key == self.api_key,
            r.base_url == self.base_url,
    {
        Self { api_key: self.api_key, base_url: self.base_url, user_agent: user_agent.into() }
    }

    /// The default settings, with the key that the environment gives; with an
    /// empty key where it gives none.
    pub fn from_environment(api_key: Option<String>) -> (r: Self)
        ensures
            r.api_key@ == match api_key {
                Some(key) => key@,
                None => Seq::<char>::empty(),
            },
            r.base_url@ == "https://api.kimi.com/coding/v1"@,
            r.user_agent@ == "KimiCLI/1.1.1"@,
    {
        match api_key {
            Some(key) => Self::new(key),
            None => Self::new(String::new()),
        }
    }
}

} // verus!
