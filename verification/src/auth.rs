//! The credentials for the providers.
use vstd::prelude::*;
use crate::dirs::{auth_path, data_base};
use crate::map::{entry_views, inserted, inserted_mapped, keys_ascend, lookup, lookup_inserted,
    lookup_mapped, lookup_removed, mapped, removed, removed_mapped, Entries, StringMap};
use crate::order::text_lt;
use crate::path::path_joined;
use crate::text::{opt_str, opt_view, owned};
use crate::uri::pair_views;

verus! {

/// A credential: the tokens of an account, or a key.
#[derive(Debug)]
pub enum AuthInfo {
    Oauth {
        refresh: String,
        access: String,
        /// When the access token ends, in milliseconds.
        expires_at_ms: i64,
        account_id: Option<String>,
    },
    Api { key: String, metadata: Option<Vec<(String, String)>> },
}

/// What an [`AuthInfo`] holds.
#[verifier::ext_equal]
pub enum AuthView {
    Oauth {
        refresh: Seq<char>,
        access: Seq<char>,
        expires_at_ms: i64,
        account_id: Option<Seq<char>>,
    },
    Api { key: Seq<char>, metadata: Option<Seq<(Seq<char>, Seq<char>)>> },
}

impl View for AuthInfo {
    type V = AuthView;

    open spec fn view(&self) -> AuthView {
        match self {
            AuthInfo::Oauth { refresh, access, expires_at_ms, account_id } => AuthView::Oauth {
                refresh: refresh@,
                access: access@,
                expires_at_ms: *expires_at_ms,
                account_id: opt_view(*account_id),
            },
            AuthInfo::Api { key, metadata } => AuthView::Api {
                key: key@,
                metadata: match metadata {
                    Some(m) => Some(pair_views(m@)),
                    None => None,
                },
            },
        }
    }
}

/// A copy of a list of pairs.
fn clone_pairs(pairs: &Vec<(String, String)>) -> (r: Vec<(String, String)>)
    ensures
        pair_views(r@) == pair_views(pairs@),
{
    let mut out: Vec<(String, String)> = Vec::new();
    let mut i: usize = 0;
    while i < pairs.len()
        invariant
            i <= pairs.len(),
            out@.len() == i,
            forall|j: int| 0 <= j < i ==> out@[j] == pairs@[j],
        decreases pairs.len() - i,
    {
        out.push((pairs[i].0.clone(), pairs[i].1.clone()));
        i = i + 1;
    }
    assert(pair_views(out@) =~= pair_views(pairs@));
    out
}

impl Clone for AuthInfo {
    fn clone(&self) -> (r: Self)
        ensures
            r@ == self@,
    {
        match self {
            AuthInfo::Oauth { refresh, access, expires_at_ms, account_id } => AuthInfo::Oauth {
                refresh: refresh.clone(),
                access: access.clone(),
                expires_at_ms: *expires_at_ms,
                account_id: account_id.clone(),
            },
            AuthInfo::Api { key, metadata } => AuthInfo::Api {
                key: key.clone(),
                metadata: match metadata {
                    Some(m) => Some(clone_pairs(m)),
                    None => None,
                },
            },
        }
    }
}

impl AuthInfo {
    /// Whether it holds the tokens of an account.
    pub fn is_oauth(&self) -> (r: bool)
        ensures
            r == (self@ is Oauth),
    {
        match self {
            AuthInfo::Oauth { .. } => true,
            AuthInfo::Api { .. } => false,
        }
    }
}

/// What a credential holds, as a function.
pub open spec fn auth_view() -> spec_fn(AuthInfo) -> AuthView {
    |a: AuthInfo| a@
}

/// What an [`AuthStore`] holds: the credentials by provider.
pub type Credentials = Entries<AuthView>;

/// The credentials, and the file that they are kept in.
#[derive(Debug)]
pub struct AuthStore {
    path: String,
    state: StringMap<AuthInfo>,
}

impl View for AuthStore {
    type V = Credentials;

    closed spec fn view(&self) -> Credentials {
        mapped(self.state@, auth_view())
    }
}

impl AuthStore {
    /// The file that the credentials are kept in.
    pub closed spec fn file(&self) -> Seq<char> {
        self.path@
    }

    /// The credentials in the file at `path`, where `stored` is what was read there; none where
    /// the file is missing or holds something else.
    pub fn load_at(path: &str, stored: Option<StringMap<AuthInfo>>) -> (r: Self)
        ensures
            r.file() == path@,
            r@ == (match stored {
                Some(m) => mapped(m@, auth_view()),
                None => seq![],
            }),
    {
        let state = match stored {
            Some(m) => m,
            None => StringMap::new(),
        };
        assert(stored is None ==> mapped(state@, auth_view()) =~= seq![]);
        AuthStore { path: owned(path), state }
    }

    /// The credentials in the file at its usual place, given the variables of the environment.
    pub fn load_default(
        xdg: Option<&str>,
        home: Option<&str>,
        stored: Option<StringMap<AuthInfo>>,
    ) -> (r: Self)
        ensures
            r.file() == path_joined(
                path_joined(
                    match data_base(opt_str(xdg), opt_str(home)) {
                        Some(b) => b,
                        None => "."@,
                    },
                    "xiě-code"@,
                ),
                "auth.json"@,
            ),
            r@ == (match stored {
                Some(m) => mapped(m@, auth_view()),
                None => seq![],
            }),
    {
        AuthStore::load_at(auth_path(xdg, home).as_str(), stored)
    }

    /// The file that the credentials are kept in.
    pub fn path(&self) -> (r: &str)
        ensures
            r@ == self.file(),
    {
        self.path.as_str()
    }

    /// The credential for a provider.
    pub fn get(&self, provider_id: &str) -> (r: Option<AuthInfo>)
        ensures
            r is Some <==> lookup(self@, provider_id@) is Some,
            r matches Some(a) ==> lookup(self@, provider_id@) == Some(a@),
    {
        proof {
            lookup_mapped(self.state@, auth_view(), provider_id@);
        }
        match self.state.get(provider_id) {
            Some(a) => Some(a.clone()),
            None => None,
        }
    }

    /// All credentials, in the order of the providers.
    pub fn all(&self) -> (r: &Vec<(String, AuthInfo)>)
        ensures
            mapped(entry_views(r@), auth_view()) == self@,
            keys_ascend(self@),
    {
        let r = self.state.entries();
        proof {
            assert forall|a: int, b: int| 0 <= a < b < self@.len() implies text_lt(
                (#[trigger] self@[a]).0,
                (#[trigger] self@[b]).0,
            ) by {
                assert(self@[a].0 == self.state@[a].0);
                assert(self@[b].0 == self.state@[b].0);
            }
        }
        r
    }

    /// Whether there is a credential for a provider.
    pub fn has(&self, provider_id: &str) -> (r: bool)
        ensures
            r == lookup(self@, provider_id@) is Some,
    {
        self.get(provider_id).is_some()
    }

    /// Puts in the credential for a provider, in place of the one that it had.
    pub fn set(&mut self, provider_id: &str, info: AuthInfo)
        ensures
            final(self)@ == inserted(old(self)@, provider_id@, info@),
            final(self).file() == old(self).file(),
    {
        proof {
            inserted_mapped(self.state@, auth_view(), provider_id@, info);
        }
        self.state.insert(owned(provider_id), info);
    }

    /// Takes out the credential for a provider.
    pub fn remove(&mut self, provider_id: &str)
        ensures
            final(self)@ == removed(old(self)@, provider_id@),
            final(self).file() == old(self).file(),
    {
        proof {
            removed_mapped(self.state@, auth_view(), provider_id@);
        }
        let _ = self.state.remove(provider_id);
    }
}

/// A credential that was put in is found again, and those of other providers stay as they were.
pub proof fn credentials_are_kept(
    c: Credentials,
    provider: Seq<char>,
    info: AuthView,
    other: Seq<char>,
)
    ensures
        lookup(inserted(c, provider, info), provider) == Some(info),
        other != provider ==> lookup(inserted(c, provider, info), other) == lookup(c, other),
{
    lookup_inserted(c, provider, info, provider);
    lookup_inserted(c, provider, info, other);
}

/// A credential that was taken out is gone, and those of other providers stay as they were.
pub proof fn credentials_are_dropped(c: Credentials, provider: Seq<char>, other: Seq<char>)
    requires
        keys_ascend(c),
    ensures
        lookup(removed(c, provider), provider) is None,
        other != provider ==> lookup(removed(c, provider), other) == lookup(c, other),
{
    lookup_removed(c, provider, provider);
    lookup_removed(c, provider, other);
}

} // verus!
