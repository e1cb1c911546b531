//! Who the gateway is to the manager.

use vstd::prelude::*;

use crate::config::ManagerConfig;
use crate::json;

verus! {

/// The name and the secret that the manager gave to the gateway, or the token to get them with.
#[derive(Debug)]
pub struct Credentials {
    pub node_id: Option<String>,
    pub node_secret: Option<String>,
    pub registration_token: Option<String>,
}

/// What [`Credentials`] hold.
#[verifier::ext_equal]
pub struct CredentialsView {
    pub node_id: Option<Seq<char>>,
    pub node_secret: Option<Seq<char>>,
    pub registration_token: Option<Seq<char>>,
}

impl View for Credentials {
    type V = CredentialsView;

    open spec fn view(&self) -> CredentialsView {
        CredentialsView {
            node_id: json::string_view(self.node_id),
            node_secret: json::string_view(self.node_secret),
            registration_token: json::string_view(self.registration_token),
        }
    }
}

impl CredentialsView {
    /// Whether they suffice to come back to the manager.
    pub open spec fn complete(self) -> bool {
        self.node_id is Some && self.node_secret is Some
    }

    /// The credentials after the manager gave a name and a secret.
    pub open spec fn registered(self, node_id: Seq<char>, node_secret: Seq<char>) -> CredentialsView {
        CredentialsView {
            node_id: Some(node_id),
            node_secret: Some(node_secret),
            registration_token: None,
        }
    }
}

impl Credentials {
    /// The credentials that were read from the file, where they are complete; else only the token
    /// from the settings.
    pub fn load_or_default(config: &ManagerConfig, stored: Option<Credentials>) -> (r: Credentials)
        ensures
            r@ == if stored is Some && stored->0@.complete() {
                stored->0@
            } else {
                CredentialsView {
                    node_id: None,
                    node_secret: None,
                    registration_token: json::string_view(config.registration_token),
                }
            },
    {
        if let Some(creds) = stored {
            if creds.has_credentials() {
                return creds;
            }
        }
        Credentials {
            node_id: None,
            node_secret: None,
            registration_token: match &config.registration_token {
                Some(t) => Some(t.clone()),
                None => None,
            },
        }
    }

    /// Whether the credentials suffice to come back to the manager.
    pub fn has_credentials(&self) -> (r: bool)
        ensures
            r == self@.complete(),
    {
        self.node_id.is_some() && self.node_secret.is_some()
    }

    /// Keeps the name and the secret that the manager gave. The token is used up.
    pub fn register(&mut self, node_id: &str, node_secret: &str)
        ensures
            final(self)@ == old(self)@.registered(node_id@, node_secret@),
            final(self)@.complete(),
    {
        self.node_id = Some(node_id.to_owned());
        self.node_secret = Some(node_secret.to_owned());
        self.registration_token = None;
    }
}

} // verus!
