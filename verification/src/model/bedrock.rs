//! Credential resolution for the managed cloud runtime.
//!
//! The crate decides here which credential source and region a transport
//! client must be built from; performing that build is the caller's work.
use vstd::prelude::*;

verus! {

/// The declared way of authenticating to the managed runtime.  Absence of
/// a value means "resolve from the ambient environment".
#[derive(Debug, Clone)]
pub enum AwsConfig {
    Profile { profile_name: String, region: Option<String> },
    Credential { access_key: Option<String>, secret_key: Option<String>, region: Option<String> },
}

/// The credential source a transport client is to be built from.
#[derive(Debug)]
pub enum CredentialSource {
    /// Ambient environment-resolved credentials.
    Ambient,
    /// The named configuration profile.
    Profile(String),
    /// A static key pair.
    Static { access_key: String, secret_key: String },
}

/// What to build: a credential source and an optional region override.
#[derive(Debug)]
pub struct ClientPlan {
    pub source: CredentialSource,
    pub region: Option<String>,
}

impl ClientPlan {
    /// Decides the transport client for a declared credential
    /// configuration.
    ///
    /// A profile names its credential source outright.  An explicit pair
    /// is used only when both halves are present; a lone region keeps the
    /// ambient credentials and overrides the region alone; an empty
    /// declaration, like no declaration, resolves everything from the
    /// ambient environment.
    pub fn resolve(aws_config: &Option<AwsConfig>) -> (r: ClientPlan)
        ensures
            match aws_config {
                None => r.source is Ambient && r.region is None,
                Some(AwsConfig::Profile { profile_name, region }) => (r.source matches
                    CredentialSource::Profile(p) && p@ == profile_name@) && r.region
                    == *region,
                Some(AwsConfig::Credential { access_key, secret_key, region }) => {
                    &&& if access_key is Some && secret_key is Some {
                        r.source matches CredentialSource::Static { access_key: a, secret_key: k }
                            && a@ == access_key->0@ && k@ == secret_key->0@
                    } else {
                        r.source is Ambient
                    }
                    &&& r.region == *region
                },
            },
    {
        match aws_config {
            None => ClientPlan { source: CredentialSource::Ambient, region: None },
            Some(AwsConfig::Profile { profile_name, region }) => ClientPlan {
                source: CredentialSource::Profile(profile_name.clone()),
                region: clone_opt(region),
            },
            Some(AwsConfig::Credential { access_key, secret_key, region }) => {
                let source = match (access_key, secret_key) {
                    (Some(a), Some(k)) => CredentialSource::Static {
                        access_key: a.clone(),
                        secret_key: k.clone(),
                    },
                    _ => CredentialSource::Ambient,
                };
                ClientPlan { source, region: clone_opt(region) }
            },
        }
    }
}

/// A copy of an optional string, value for value.
fn clone_opt(o: &Option<String>) -> (r: Option<String>)
    ensures
        r == *o,
{
    match o {
        None => None,
        Some(s) => Some(s.clone()),
    }
}


/// The mathematical shape of a declared credential configuration.
#[verifier::ext_equal]
pub enum AwsConfigModel {
    Profile { profile_name: Seq<char>, region: Option<Seq<char>> },
    Credential {
        access_key: Option<Seq<char>>,
        secret_key: Option<Seq<char>>,
        region: Option<Seq<char>>,
    },
}

impl View for AwsConfig {
    type V = AwsConfigModel;

    open spec fn view(&self) -> AwsConfigModel {
        match self {
            AwsConfig::Profile { profile_name, region } => AwsConfigModel::Profile {
                profile_name: profile_name@,
                region: match region {
                    Some(r) => Some(r@),
                    None => None,
                },
            },
            AwsConfig::Credential { access_key, secret_key, region } => AwsConfigModel::Credential {
                access_key: match access_key {
                    Some(a) => Some(a@),
                    None => None,
                },
                secret_key: match secret_key {
                    Some(s) => Some(s@),
                    None => None,
                },
                region: match region {
                    Some(r) => Some(r@),
                    None => None,
                },
            },
        }
    }
}

} // verus!
