//! API keys of the providers and services that a user has connected.
use crate::byte_path::opt_bytes;
use crate::paths::{ConfigDir, PathError, config_file_under, home_dir, in_config_home, path_bytes};
use crate::text::{copy, opt_str, texts};
use crate::text_map::{TextMap, text_less, texts_are_ordered};
use vstd::prelude::*;

verus! {

/// The keys, by provider for models and web search, and by name for the servers of tools. A
/// provider is connected when it has a key.
pub struct AuthStore {
    pub llm: TextMap<String>,
    pub web_search: TextMap<String>,
    pub mcp: TextMap<String>,
}

impl Default for AuthStore {
    fn default() -> (r: AuthStore)
        ensures
            r.llm@ == Map::<Seq<char>, String>::empty(),
            r.web_search@ == Map::<Seq<char>, String>::empty(),
            r.mcp@ == Map::<Seq<char>, String>::empty(),
    {
        AuthStore { llm: TextMap::new(), web_search: TextMap::new(), mcp: TextMap::new() }
    }
}

/// The key under `id`.
pub open spec fn key_in(m: Map<Seq<char>, String>, id: Seq<char>) -> Option<Seq<char>> {
    if m.contains_key(id) {
        Some(m[id]@)
    } else {
        None
    }
}

fn key_of<'a>(m: &'a TextMap<String>, id: &str) -> (r: Option<&'a str>)
    ensures
        opt_str(r) == key_in(m@, id@),
{
    match m.get(id) {
        Some(k) => Some(k.as_str()),
        None => None,
    }
}

/// Whether `new` is `old` with `value` under `key`.
pub open spec fn has_put(
    old: Map<Seq<char>, String>,
    new: Map<Seq<char>, String>,
    key: Seq<char>,
    value: Seq<char>,
) -> bool {
    new.contains_key(key) && new == old.insert(key, new[key]) && new[key]@ == value
}

impl AuthStore {
    /// The file that keeps the keys, below the home directory `home`.
    pub fn default_path_under(home: Option<Vec<u8>>, dir: &ConfigDir) -> (r: Result<Vec<u8>, PathError>)
        ensures
            path_bytes(r) == in_config_home(opt_bytes(home), dir.name(), "auth.toml"@),
    {
        config_file_under(home, dir, "auth.toml")
    }

    /// The file that keeps the keys.
    pub fn default_path(dir: &ConfigDir) -> (r: Result<Vec<u8>, PathError>)
        ensures
            exists|home: Option<Seq<u8>>|
                path_bytes(r) == #[trigger] in_config_home(home, dir.name(), "auth.toml"@),
    {
        let home = home_dir();
        let ghost h = opt_bytes(home);
        let r = Self::default_path_under(home, dir);
        assert(path_bytes(r) == in_config_home(h, dir.name(), "auth.toml"@));
        r
    }

    /// The key of a provider of models.
    pub fn get(&self, provider_id: &str) -> (r: Option<&str>)
        ensures
            opt_str(r) == key_in(self.llm@, provider_id@),
    {
        key_of(&self.llm, provider_id)
    }

    /// Connects a provider of models.
    pub fn set(&mut self, provider_id: &str, key: &str)
        ensures
            has_put(old(self).llm@, final(self).llm@, provider_id@, key@),
            final(self).web_search == old(self).web_search,
            final(self).mcp == old(self).mcp,
    {
        self.llm.insert(copy(provider_id), copy(key));
        assert(self.llm@ =~= old(self).llm@.insert(provider_id@, self.llm@[provider_id@]));
    }

    /// Disconnects a provider of models.
    pub fn remove(&mut self, provider_id: &str)
        ensures
            final(self).llm@ == old(self).llm@.remove(provider_id@),
            final(self).web_search == old(self).web_search,
            final(self).mcp == old(self).mcp,
    {
        let _ = self.llm.remove(provider_id);
    }

    /// The providers of models that are connected, each once.
    pub fn connected_ids(&self) -> (r: Vec<String>)
        ensures
            forall|id: Seq<char>| texts(r@).contains(id) <==> self.llm@.contains_key(id),
            forall|i: int, j: int|
                0 <= i < j < r@.len() ==> text_less((#[trigger] r@[i])@, (#[trigger] r@[j])@),
    {
        self.llm.keys()
    }

    /// Whether a provider of models is connected.
    pub fn contains(&self, provider_id: &str) -> (r: bool)
        ensures
            r == self.llm@.contains_key(provider_id@),
    {
        self.llm.contains_key(provider_id)
    }

    /// The key of a provider of web search.
    pub fn get_web_search_key(&self, provider_id: &str) -> (r: Option<&str>)
        ensures
            opt_str(r) == key_in(self.web_search@, provider_id@),
    {
        key_of(&self.web_search, provider_id)
    }

    /// The key under `key` for the servers of tools.
    pub fn get_mcp_key(&self, key: &str) -> (r: Option<&str>)
        ensures
            opt_str(r) == key_in(self.mcp@, key@),
    {
        key_of(&self.mcp, key)
    }

    /// Keeps a key for the servers of tools.
    pub fn set_mcp_key(&mut self, key: &str, value: &str)
        ensures
            has_put(old(self).mcp@, final(self).mcp@, key@, value@),
            final(self).llm == old(self).llm,
            final(self).web_search == old(self).web_search,
    {
        self.mcp.insert(copy(key), copy(value));
        assert(self.mcp@ =~= old(self).mcp@.insert(key@, self.mcp@[key@]));
    }
}

/// A key that was put is found, and no other key changes.
pub proof fn keys_read_back(
    old: Map<Seq<char>, String>,
    new: Map<Seq<char>, String>,
    key: Seq<char>,
    value: Seq<char>,
    other: Seq<char>,
)
    requires
        has_put(old, new, key, value),
    ensures
        key_in(new, key) == Some(value),
        other != key ==> key_in(new, other) == key_in(old, other),
{
}

/// A provider that was disconnected is not found, and the others stay connected.
pub proof fn removed_keys_are_gone(m: Map<Seq<char>, String>, key: Seq<char>, other: Seq<char>)
    ensures
        key_in(m.remove(key), key) is None,
        other != key ==> key_in(m.remove(key), other) == key_in(m, other),
{
}

/// A provider that was connected is found with its key, one that was disconnected is not found,
/// and neither changes the keys of any other provider.
pub proof fn connected_providers_are_found(
    connected: &mut AuthStore,
    disconnected: &mut AuthStore,
    id: &str,
    key: &str,
    other: Seq<char>,
)
    requires
        call_ensures(AuthStore::set, (connected, id, key), ()),
        call_ensures(AuthStore::remove, (disconnected, id), ()),
    ensures
        key_in(final(connected).llm@, id@) == Some(key@),
        key_in(final(disconnected).llm@, id@) is None,
        other != id@ ==> key_in(final(connected).llm@, other) == key_in(old(connected).llm@, other),
        other != id@ ==> key_in(final(disconnected).llm@, other) == key_in(
            old(disconnected).llm@,
            other,
        ),
        final(connected).web_search == old(connected).web_search,
        final(connected).mcp == old(connected).mcp,
        final(disconnected).web_search == old(disconnected).web_search,
{
    keys_read_back(old(connected).llm@, final(connected).llm@, id@, key@, other);
    removed_keys_are_gone(old(disconnected).llm@, id@, other);
}

/// A key that is asked for is the one that is kept, of models as of web search and of servers of
/// tools.
pub proof fn kept_keys_are_given(
    auth: AuthStore,
    id: &str,
    model: Option<&str>,
    search: Option<&str>,
    server: Option<&str>,
    connected: bool,
)
    requires
        call_ensures(AuthStore::get, (&auth, id), model),
        call_ensures(AuthStore::get_web_search_key, (&auth, id), search),
        call_ensures(AuthStore::get_mcp_key, (&auth, id), server),
        call_ensures(AuthStore::contains, (&auth, id), connected),
    ensures
        auth.llm@.contains_key(id@) ==> (model matches Some(k) && k@ == auth.llm@[id@]@),
        auth.web_search@.contains_key(id@) ==> (search matches Some(k) && k@
            == auth.web_search@[id@]@),
        auth.mcp@.contains_key(id@) ==> (server matches Some(k) && k@ == auth.mcp@[id@]@),
        connected == (model is Some),
{
}

/// Each provider that has a key is connected, and is told once.
pub proof fn providers_with_keys_are_connected(auth: AuthStore, r: Vec<String>, id: Seq<char>)
    requires
        call_ensures(AuthStore::connected_ids, (&auth,), r),
    ensures
        texts(r@).contains(id) == (key_in(auth.llm@, id) is Some),
        forall|i: int, j: int| 0 <= i < j < r@.len() ==> (#[trigger] r@[i])@ != (#[trigger] r@[j])@,
{
    assert forall|i: int, j: int| 0 <= i < j < r@.len() implies (#[trigger] r@[i])@ != (
    #[trigger] r@[j])@ by {
        texts_are_ordered(r@[i]@, r@[j]@, r@[i]@);
    }
}

/// A key that is kept for a server of tools is found, and changes no other key.
pub proof fn server_keys_are_found(
    auth: &mut AuthStore,
    key: &str,
    value: &str,
    other: Seq<char>,
)
    requires
        call_ensures(AuthStore::set_mcp_key, (auth, key, value), ()),
    ensures
        key_in(final(auth).mcp@, key@) == Some(value@),
        other != key@ ==> key_in(final(auth).mcp@, other) == key_in(old(auth).mcp@, other),
        final(auth).llm == old(auth).llm,
{
    keys_read_back(old(auth).mcp@, final(auth).mcp@, key@, value@, other);
}

} // verus!
