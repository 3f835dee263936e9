//! The persisted configuration: an endpoint URL and an optional token.

use vstd::prelude::*;
use vstd::string::StringExecFns;
use crate::text::trim_spec;

verus! {

/// The URL a fresh configuration starts with.
pub open spec fn default_url() -> Seq<char> {
    "http://localhost/admin"@
}

/// The configuration the session runs on.
///
/// `url` is the base administration endpoint; `token` is the credential sent
/// with every request, or empty to make the client prompt for one.
#[derive(Debug)]
pub struct Config {
    pub url: String,
    pub token: String,
}

impl Config {
    /// The invariant a loaded configuration is expected to keep: a non-empty
    /// URL, and a token that is empty or trimmed.
    pub open spec fn wf(self) -> bool {
        &&& self.url@.len() > 0
        &&& self.token@ == trim_spec(self.token@)
    }

    /// The base URL.
    pub fn get_url(&self) -> (r: &String)
        ensures
            r@ == self.url@,
    {
        &self.url
    }

    /// A copy of the current token.
    pub fn get_token(&self) -> (r: String)
        ensures
            r@ == self.token@,
    {
        self.token.clone()
    }

    /// Replaces the token. Callers trim and reject empty input beforehand.
    pub fn set_token(&mut self, new_token: String)
        ensures
            final(self).url == old(self).url,
            final(self).token == new_token,
    {
        self.token = new_token;
    }
}

/// The configuration a first run starts from: the default URL and no token.
pub fn default_config() -> (r: Config)
    ensures
        r.url@ == default_url(),
        r.token@ == Seq::<char>::empty(),
        r.wf(),
{
    let c = Config { url: String::from_str("http://localhost/admin"), token: String::new() };
    proof {
        reveal_strlit("http://localhost/admin");
        assert(trim_spec(Seq::<char>::empty()) == Seq::<char>::empty());
    }
    c
}

} // verus!
