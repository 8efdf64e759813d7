//! The durable credential store and the server resolution engine.
//!
//! A [`Config`] records the servers this client knows, an optional default
//! among them, and the two fields of the legacy single-server schema that a
//! one-time migration folds into the server list. Resolution turns an
//! optional reference string plus an environment snapshot into one concrete
//! URL/key pair with a fixed precedence: environment override, then explicit
//! reference (a name or a raw URL), then the default server.

use vstd::prelude::*;
use vstd::string::StringExecFns;
use crate::urls::normalize_server_url;
use crate::urls::normalize_url_spec;
use crate::urls::valid_server_url;
use crate::utils::str_eq;

verus! {

/// One concrete server target: the URL to call and the key to present.
#[derive(Debug, Clone, PartialEq)]
pub struct ServerConfig {
    pub url: String,
    pub api_key: Option<String>,
}

/// One named entry of the credential store.
#[derive(Debug, Clone, PartialEq)]
pub struct ServerEntry {
    pub name: String,
    pub url: String,
    pub api_key: Option<String>,
}

/// The durable record of known servers and per-server credentials.
#[derive(Debug, Clone, PartialEq)]
pub struct Config {
    /// Known servers; names are unique.
    pub servers: Vec<ServerEntry>,
    /// Name of the entry used when no reference is given.
    pub default_server: Option<String>,
    /// Legacy single-server schema: its URL. Cleared by migration.
    pub server: Option<String>,
    /// Legacy single-server schema: its key. Cleared by migration.
    pub api_key: Option<String>,
    /// Preferred output format for rendered results.
    pub default_format: Option<String>,
    /// Opt-out switch for background update checks.
    pub skip_update_check: Option<bool>,
}

/// The environment variables the resolution engine honours, captured as
/// explicit inputs.
#[derive(Debug, Clone, PartialEq)]
pub struct EnvSnapshot {
    /// Overrides the server reference outright.
    pub server: Option<String>,
    /// Replaces the resolved entry's key.
    pub api_key: Option<String>,
}

impl EnvSnapshot {
    /// A snapshot with neither override set.
    pub fn empty() -> (r: EnvSnapshot)
        ensures
            r.server is None,
            r.api_key is None,
    {
        EnvSnapshot { server: None, api_key: None }
    }
}

pub open spec fn has_entry(s: Seq<ServerEntry>, n: Seq<char>) -> bool {
    exists|i: int| 0 <= i < s.len() && s[i].name@ == n
}

/// First index at or after `i` whose entry is named `n`, or -1.
pub open spec fn entry_index_from(s: Seq<ServerEntry>, n: Seq<char>, i: int) -> int
    decreases s.len() - i,
{
    if i < 0 || i >= s.len() {
        -1
    } else if s[i].name@ == n {
        i
    } else {
        entry_index_from(s, n, i + 1)
    }
}

/// First index whose entry is named `n`, or -1.
pub open spec fn entry_index(s: Seq<ServerEntry>, n: Seq<char>) -> int {
    entry_index_from(s, n, 0)
}

/// The entry named `n`; meaningful only when `has_entry(s, n)`.
pub open spec fn entry_at(s: Seq<ServerEntry>, n: Seq<char>) -> ServerEntry {
    s[entry_index(s, n)]
}

pub proof fn lemma_entry_index_from(s: Seq<ServerEntry>, n: Seq<char>, i: int)
    requires
        0 <= i <= s.len(),
    ensures
        entry_index_from(s, n, i) == -1 || entry_index_from(s, n, i) >= i,
        entry_index_from(s, n, i) == -1 ==> forall|k: int|
            i <= k < s.len() ==> s[k].name@ != n,
        entry_index_from(s, n, i) >= 0 ==> i <= entry_index_from(s, n, i) < s.len() && s[
            entry_index_from(s, n, i)
        ].name@ == n && forall|k: int| i <= k < entry_index_from(s, n, i) ==> s[k].name@ != n,
    decreases s.len() - i,
{
    if i < s.len() && s[i].name@ != n {
        lemma_entry_index_from(s, n, i + 1);
    }
}

/// `entry_index` finds the first entry named `n` exactly when one exists.
pub proof fn lemma_entry_index(s: Seq<ServerEntry>, n: Seq<char>)
    ensures
        has_entry(s, n) <==> entry_index(s, n) >= 0,
        entry_index(s, n) >= 0 ==> 0 <= entry_index(s, n) < s.len() && s[entry_index(s, n)].name@
            == n && forall|k: int| 0 <= k < entry_index(s, n) ==> s[k].name@ != n,
{
    lemma_entry_index_from(s, n, 0);
    if has_entry(s, n) {
        let k = choose|k: int| 0 <= k < s.len() && s[k].name@ == n;
        assert(s[k].name@ == n);
    }
}

/// Insert-or-overwrite of one entry, keyed by its name.
pub open spec fn upsert(s: Seq<ServerEntry>, e: ServerEntry) -> Seq<ServerEntry> {
    if has_entry(s, e.name@) {
        s.update(entry_index(s, e.name@), e)
    } else {
        s.push(e)
    }
}

/// What went wrong while resolving or editing the store.
#[derive(Debug, Clone, PartialEq)]
pub enum ConfigError {
    /// The reference names no known entry and is not a URL either.
    ServerNotFound { name: String, known: Vec<String> },
    /// The store holds no entries at all.
    NoServers,
    /// The selected entry carries no key.
    NoApiKey,
    /// The string cannot be used as a server URL.
    InvalidUrl { url: String },
    /// The reference was a URL, but no entry carries it.
    UrlNotFound { url: String },
}

/// The names in `names[..i]` joined with `, `.
pub open spec fn joined_upto(names: Seq<String>, i: int) -> Seq<char>
    decreases i,
{
    if i <= 0 || i > names.len() {
        Seq::<char>::empty()
    } else if i == 1 {
        names[0]@
    } else {
        joined_upto(names, i - 1) + ", "@ + names[i - 1]@
    }
}

impl ConfigError {
    /// The user-facing text of this error.
    pub open spec fn message_spec(self) -> Seq<char> {
        match self {
            ConfigError::ServerNotFound { name, known } => {
                let head = "Server '"@ + name@ + "' not found."@;
                if known@.len() == 0 {
                    head + " No servers are configured."@
                } else {
                    head + " Known servers: "@ + joined_upto(known@, known@.len() as int)
                }
            },
            ConfigError::NoServers => "No servers configured. Add one with 'ricochet servers add' or run 'ricochet login'."@,
            ConfigError::NoApiKey => "No API key configured. Use 'ricochet login' to authenticate"@,
            ConfigError::InvalidUrl { url } => "Invalid server URL '"@ + url@
                + "': expected an absolute http(s) URL"@,
            ConfigError::UrlNotFound { url } => "No server found with URL '"@ + url@ + "'"@,
        }
    }

    /// Render the error for the user; keys never appear here.
    pub fn message(&self) -> (r: String)
        ensures
            r@ == self.message_spec(),
    {
        match self {
            ConfigError::ServerNotFound { name, known } => {
                let mut r = String::from_str("Server '");
                r.append(name.as_str());
                r.append("' not found.");
                if known.len() == 0 {
                    r.append(" No servers are configured.");
                } else {
                    r.append(" Known servers: ");
                    let n = known.len();
                    let mut i: usize = 0;
                    while i < n
                        invariant
                            n == known@.len(),
                            0 <= i <= n,
                            r@ == "Server '"@ + name@ + "' not found."@ + " Known servers: "@
                                + joined_upto(known@, i as int),
                        decreases n - i,
                    {
                        if i > 0 {
                            r.append(", ");
                        }
                        r.append(known[i].as_str());
                        i = i + 1;
                    }
                }
                r
            },
            ConfigError::NoServers => String::from_str(
                "No servers configured. Add one with 'ricochet servers add' or run 'ricochet login'.",
            ),
            ConfigError::NoApiKey => String::from_str(
                "No API key configured. Use 'ricochet login' to authenticate",
            ),
            ConfigError::InvalidUrl { url } => {
                let mut r = String::from_str("Invalid server URL '");
                r.append(url.as_str());
                r.append("': expected an absolute http(s) URL");
                r
            },
            ConfigError::UrlNotFound { url } => {
                let mut r = String::from_str("No server found with URL '");
                r.append(url.as_str());
                r.append("'");
                r
            },
        }
    }
}

impl Config {
    /// Entry names are unique.
    pub open spec fn unique_names(self) -> bool {
        forall|i: int, j: int|
            0 <= i < j < self.servers@.len() ==> self.servers@[i].name@ != self.servers@[j].name@
    }

    /// Well-formed store: unique names, and the default pointer names a known
    /// entry.
    pub open spec fn wf(self) -> bool {
        &&& self.unique_names()
        &&& (self.default_server matches Some(d) ==> has_entry(self.servers@, d@))
    }

    /// The legacy fields have been folded away (or never held anything).
    pub open spec fn is_migrated(self) -> bool {
        self.servers@.len() > 0 || self.server is None
    }

    /// A store that knows no servers and holds nothing legacy.
    pub fn new() -> (r: Config)
        ensures
            r.wf(),
            r.servers@.len() == 0,
            r.default_server is None,
            r.server is None,
            r.api_key is None,
            r.default_format is None,
            r.skip_update_check is None,
    {
        Config {
            servers: Vec::new(),
            default_server: None,
            server: None,
            api_key: None,
            default_format: None,
            skip_update_check: None,
        }
    }

    /// Index of the entry named `name`, or `None`.
    pub(crate) fn find_entry(&self, name: &str) -> (r: Option<usize>)
        ensures
            r is Some <==> has_entry(self.servers@, name@),
            r matches Some(i) ==> i == entry_index(self.servers@, name@),
    {
        let n = self.servers.len();
        let mut i: usize = 0;
        while i < n
            invariant
                n == self.servers@.len(),
                0 <= i <= n,
                entry_index(self.servers@, name@) == entry_index_from(self.servers@, name@, i as int),
            decreases n - i,
        {
            if str_eq(self.servers[i].name.as_str(), name) {
                proof {
                    lemma_entry_index(self.servers@, name@);
                }
                return Some(i);
            }
            i = i + 1;
        }
        proof {
            lemma_entry_index(self.servers@, name@);
        }
        None
    }

    /// How `add_server` changes a store: the entry is upserted, the default
    /// pointer is set to it only when none was set, everything else is kept.
    pub open spec fn add_transition(pre: Config, post: Config, e: ServerEntry) -> bool {
        &&& post.servers@ == upsert(pre.servers@, e)
        &&& post.default_server == (if pre.default_server is None {
            Some(e.name)
        } else {
            pre.default_server
        })
        &&& post.server == pre.server
        &&& post.api_key == pre.api_key
        &&& post.default_format == pre.default_format
        &&& post.skip_update_check == pre.skip_update_check
    }

    /// Insert or overwrite the entry named `name`; the first entry ever added
    /// becomes the default. A pure upsert: the URL is stored as given.
    pub fn add_server(&mut self, name: String, url: String, api_key: Option<String>)
        requires
            old(self).wf(),
        ensures
            final(self).wf(),
            Self::add_transition(*old(self), *final(self), (ServerEntry { name, url, api_key })),
    {
        proof {
            lemma_entry_index(self.servers@, name@);
        }
        let entry_name = name.clone();
        let e = ServerEntry { name, url, api_key };
        match self.find_entry(entry_name.as_str()) {
            Some(i) => {
                self.servers.set(i, e);
            },
            None => {
                self.servers.push(e);
            },
        }
        if self.default_server.is_none() {
            self.default_server = Some(entry_name);
        }
        proof {
            lemma_entry_index(old(self).servers@, name@);
            assert forall|a: int, b: int|
                0 <= a < b < self.servers@.len() implies self.servers@[a].name@
                != self.servers@[b].name@ by {
                assert(old(self).wf());
            }
            match old(self).default_server {
                Some(d0) => {
                    let k = choose|k: int|
                        0 <= k < old(self).servers@.len() && old(self).servers@[k].name@ == d0@;
                    assert(self.servers@[k].name@ == d0@);
                },
                None => {
                    if has_entry(old(self).servers@, name@) {
                        let i = entry_index(old(self).servers@, name@);
                        assert(self.servers@[i].name@ == name@);
                    } else {
                        assert(self.servers@[old(self).servers@.len() as int].name@ == name@);
                    }
                },
            }
        }
    }

    /// The entry names in store order.
    pub fn server_names(&self) -> (r: Vec<String>)
        ensures
            r@.len() == self.servers@.len(),
            forall|i: int| 0 <= i < r@.len() ==> r@[i]@ == self.servers@[i].name@,
    {
        let n = self.servers.len();
        let mut r: Vec<String> = Vec::new();
        let mut i: usize = 0;
        while i < n
            invariant
                n == self.servers@.len(),
                0 <= i <= n,
                r@.len() == i,
                forall|k: int| 0 <= k < i ==> r@[k]@ == self.servers@[k].name@,
            decreases n - i,
        {
            r.push(self.servers[i].name.clone());
            i = i + 1;
        }
        r
    }

    /// A copy of every entry, in store order.
    pub fn list_servers(&self) -> (r: Vec<ServerEntry>)
        ensures
            r@ == self.servers@,
    {
        let n = self.servers.len();
        let mut r: Vec<ServerEntry> = Vec::new();
        let mut i: usize = 0;
        while i < n
            invariant
                n == self.servers@.len(),
                0 <= i <= n,
                r@.len() == i,
                forall|k: int| 0 <= k < i ==> r@[k] == self.servers@[k],
            decreases n - i,
        {
            let key_copy = match &self.servers[i].api_key {
                Some(k) => Some(k.clone()),
                None => None,
            };
            proof {
                assert(key_copy == self.servers@[i as int].api_key);
            }
            let e = ServerEntry {
                name: self.servers[i].name.clone(),
                url: self.servers[i].url.clone(),
                api_key: key_copy,
            };
            r.push(e);
            proof {
                assert(r@[i as int] == self.servers@[i as int]);
            }
            i = i + 1;
        }
        proof {
            assert(r@ =~= self.servers@);
        }
        r
    }

    /// How `remove_server` changes a store: the entry leaves, and the default
    /// pointer is cleared (not re-elected) exactly when it named the removed
    /// entry.
    pub open spec fn remove_transition(
        pre: Config,
        post: Config,
        n: Seq<char>,
        was_default: bool,
    ) -> bool {
        &&& has_entry(pre.servers@, n)
        &&& post.servers@ == pre.servers@.remove(entry_index(pre.servers@, n))
        &&& was_default == (pre.default_server matches Some(d) && d@ == n)
        &&& post.default_server == (if was_default {
            Option::<String>::None
        } else {
            pre.default_server
        })
        &&& post.server == pre.server
        &&& post.api_key == pre.api_key
        &&& post.default_format == pre.default_format
        &&& post.skip_update_check == pre.skip_update_check
    }

    /// Remove the entry named `name`; returns whether it was the default, in
    /// which case the default pointer is cleared. Fails when no such entry
    /// exists.
    pub fn remove_server(&mut self, name: &str) -> (r: Result<bool, ConfigError>)
        requires
            old(self).wf(),
        ensures
            final(self).wf(),
            match r {
                Ok(was_default) => Self::remove_transition(
                    *old(self),
                    *final(self),
                    name@,
                    was_default,
                ),
                Err(e) => !has_entry(old(self).servers@, name@) && *final(self) == *old(self) && (
                e matches ConfigError::ServerNotFound { name: n2, .. } && n2@ == name@),
            },
    {
        proof {
            lemma_entry_index(self.servers@, name@);
        }
        match self.find_entry(name) {
            None => {
                Err(
                    ConfigError::ServerNotFound {
                        name: String::from_str(name),
                        known: self.server_names(),
                    },
                )
            },
            Some(i) => {
                self.servers.remove(i);
                let was_default = match &self.default_server {
                    Some(d) => str_eq(d.as_str(), name),
                    None => false,
                };
                if was_default {
                    self.default_server = None;
                }
                proof {
                    let pre = old(self).servers@;
                    let idx = entry_index(pre, name@);
                    assert forall|a: int, b: int|
                        0 <= a < b < self.servers@.len() implies self.servers@[a].name@
                        != self.servers@[b].name@ by {
                        assert(old(self).wf());
                    }
                    match &self.default_server {
                        Some(d) => {
                            let k = choose|k: int| 0 <= k < pre.len() && pre[k].name@ == d@;
                            if k < idx {
                                assert(self.servers@[k].name@ == d@);
                            } else {
                                assert(self.servers@[k - 1].name@ == d@);
                            }
                        },
                        None => {},
                    }
                }
                Ok(was_default)
            },
        }
    }

    /// Point the default at the entry named `name`; fails when no such entry
    /// exists.
    pub fn set_default_server(&mut self, name: &str) -> (r: Result<(), ConfigError>)
        requires
            old(self).wf(),
        ensures
            final(self).wf(),
            final(self).servers@ == old(self).servers@,
            final(self).server == old(self).server,
            final(self).api_key == old(self).api_key,
            final(self).default_format == old(self).default_format,
            final(self).skip_update_check == old(self).skip_update_check,
            match r {
                Ok(_) => has_entry(old(self).servers@, name@) && (final(self).default_server
                    matches Some(d) && d@ == name@),
                Err(e) => !has_entry(old(self).servers@, name@) && final(self).default_server
                    == old(self).default_server && (e matches ConfigError::ServerNotFound {
                    name: n2,
                    ..
                } && n2@ == name@),
            },
    {
        match self.find_entry(name) {
            None => {
                Err(
                    ConfigError::ServerNotFound {
                        name: String::from_str(name),
                        known: self.server_names(),
                    },
                )
            },
            Some(_) => {
                self.default_server = Some(String::from_str(name));
                Ok(())
            },
        }
    }

    /// Switch background update checks back on.
    pub fn re_enable_update_checks(&mut self)
        ensures
            final(self).servers@ == old(self).servers@,
            final(self).default_server == old(self).default_server,
            final(self).server == old(self).server,
            final(self).api_key == old(self).api_key,
            final(self).default_format == old(self).default_format,
            final(self).skip_update_check == Some(false),
    {
        self.skip_update_check = Some(false);
    }

    /// How `migrate` changes a store: nothing at all when it is already
    /// migrated; otherwise the legacy URL and key become a single entry
    /// named `default`, the default pointer is set to it, and the legacy
    /// fields are cleared.
    pub open spec fn migrate_transition(pre: Config, post: Config, changed: bool) -> bool {
        &&& changed == !pre.is_migrated()
        &&& post.is_migrated()
        &&& (!changed ==> post == pre)
        &&& (changed ==> post.servers@.len() == 1 && post.servers@[0].name@ == "default"@ && (
        pre.server matches Some(u) ==> post.servers@[0].url@ == u@) && post.servers@[0].api_key
            == pre.api_key && (post.default_server matches Some(d) && d@ == "default"@)
            && post.server is None && post.api_key is None && post.default_format
            == pre.default_format && post.skip_update_check == pre.skip_update_check)
    }

    /// Fold the legacy single-server fields into the server list: when the
    /// list is empty and a legacy URL is present, it becomes an entry named
    /// `default`, the default pointer is set to it, and the legacy fields are
    /// cleared.
    pub fn migrate(&mut self) -> (changed: bool)
        requires
            old(self).wf(),
        ensures
            final(self).wf(),
            Self::migrate_transition(*old(self), *final(self), changed),
    {
        if self.servers.len() > 0 {
            return false;
        }
        let legacy_url = match &self.server {
            Some(u) => Some(u.clone()),
            None => None,
        };
        match legacy_url {
            None => false,
            Some(url) => {
                let key = match &self.api_key {
                    Some(k) => Some(k.clone()),
                    None => None,
                };
                self.servers.push(
                    ServerEntry { name: String::from_str("default"), url, api_key: key },
                );
                self.default_server = Some(String::from_str("default"));
                self.server = None;
                self.api_key = None;
                proof {
                    assert(self.servers@.len() == 1);
                    assert(self.servers@[0].name@ == "default"@);
                    assert(has_entry(self.servers@, "default"@));
                }
                true
            },
        }
    }
}

impl Default for Config {
    /// The record used when no store exists yet: one keyless entry named
    /// `default` pointing at the well-known local server.
    fn default() -> (r: Config)
        ensures
            r.wf(),
            r.is_migrated(),
            r.servers@.len() == 1,
            r.servers@[0].name@ == "default"@,
            r.servers@[0].url@ == "http://localhost:3000"@,
            r.servers@[0].api_key is None,
            (r.default_server matches Some(d) && d@ == "default"@),
            r.server is None,
            r.api_key is None,
            (r.default_format matches Some(f) && f@ == "table"@),
            r.skip_update_check is None,
    {
        let mut servers: Vec<ServerEntry> = Vec::new();
        servers.push(
            ServerEntry {
                name: String::from_str("default"),
                url: String::from_str("http://localhost:3000"),
                api_key: None,
            },
        );
        Config {
            servers,
            default_server: Some(String::from_str("default")),
            server: None,
            api_key: None,
            default_format: Some(String::from_str("table")),
            skip_update_check: None,
        }
    }
}

/// Validate and normalize a server URL for storing; rejects anything that
/// is not an absolute http(s) URL.
pub fn parse_server_url(url: &str) -> (r: Result<String, ConfigError>)
    ensures
        match r {
            Ok(u) => valid_server_url(url@) && u@ == normalize_url_spec(url@),
            Err(e) => !valid_server_url(url@) && (e matches ConfigError::InvalidUrl { url: u2 }
                && u2@ == url@),
        },
{
    match normalize_server_url(url) {
        Some(u) => Ok(u),
        None => Err(ConfigError::InvalidUrl { url: String::from_str(url) }),
    }
}

/// View of an optional owned string.
pub open spec fn opt_view(o: Option<String>) -> Option<Seq<char>> {
    match o {
        Some(s) => Some(s@),
        None => None,
    }
}

/// View of an optional borrowed string.
pub open spec fn opt_str_view(o: Option<&str>) -> Option<Seq<char>> {
    match o {
        Some(s) => Some(s@),
        None => None,
    }
}

/// Entry `e` denotes the same logical server as the normalized URL `n`.
pub open spec fn url_match(e: ServerEntry, n: Seq<char>) -> bool {
    valid_server_url(e.url@) && normalize_url_spec(e.url@) == n
}

pub open spec fn has_url_match(s: Seq<ServerEntry>, n: Seq<char>) -> bool {
    exists|i: int| 0 <= i < s.len() && url_match(s[i], n)
}

/// First index at or after `i` whose entry matches URL `n`, or -1.
pub open spec fn url_match_index_from(s: Seq<ServerEntry>, n: Seq<char>, i: int) -> int
    decreases s.len() - i,
{
    if i < 0 || i >= s.len() {
        -1
    } else if url_match(s[i], n) {
        i
    } else {
        url_match_index_from(s, n, i + 1)
    }
}

/// First index whose entry matches URL `n`, or -1.
pub open spec fn url_match_index(s: Seq<ServerEntry>, n: Seq<char>) -> int {
    url_match_index_from(s, n, 0)
}

pub proof fn lemma_url_match_index_from(s: Seq<ServerEntry>, n: Seq<char>, i: int)
    requires
        0 <= i <= s.len(),
    ensures
        url_match_index_from(s, n, i) == -1 || url_match_index_from(s, n, i) >= i,
        url_match_index_from(s, n, i) == -1 ==> forall|k: int|
            i <= k < s.len() ==> !url_match(s[k], n),
        url_match_index_from(s, n, i) >= 0 ==> i <= url_match_index_from(s, n, i) < s.len()
            && url_match(s[url_match_index_from(s, n, i)], n) && forall|k: int|
            i <= k < url_match_index_from(s, n, i) ==> !url_match(s[k], n),
    decreases s.len() - i,
{
    if i < s.len() && !url_match(s[i], n) {
        lemma_url_match_index_from(s, n, i + 1);
    }
}

/// `url_match_index` finds the first URL match exactly when one exists.
pub proof fn lemma_url_match_index(s: Seq<ServerEntry>, n: Seq<char>)
    ensures
        has_url_match(s, n) <==> url_match_index(s, n) >= 0,
        url_match_index(s, n) >= 0 ==> 0 <= url_match_index(s, n) < s.len() && url_match(
            s[url_match_index(s, n)],
            n,
        ) && forall|k: int| 0 <= k < url_match_index(s, n) ==> !url_match(s[k], n),
{
    lemma_url_match_index_from(s, n, 0);
    if has_url_match(s, n) {
        let k = choose|k: int| 0 <= k < s.len() && url_match(s[k], n);
        assert(url_match(s[k], n));
    }
}

/// Outcome of resolution, at the specification level.
pub enum SpecResolved {
    Found { url: Seq<char>, key: Option<Seq<char>> },
    NotFound,
    NoServers,
}

/// Resolution of one chosen reference string against the server list: a known
/// name wins; otherwise a URL is normalized and matched against the stored
/// URLs, keeping the key of the first match and carrying no key when nothing
/// matches; anything else is not found.
pub open spec fn resolve_ref_spec(s: Seq<ServerEntry>, r: Seq<char>) -> SpecResolved {
    if has_entry(s, r) {
        SpecResolved::Found { url: entry_at(s, r).url@, key: opt_view(entry_at(s, r).api_key) }
    } else if valid_server_url(r) {
        let n = normalize_url_spec(r);
        if has_url_match(s, n) {
            SpecResolved::Found { url: n, key: opt_view(s[url_match_index(s, n)].api_key) }
        } else {
            SpecResolved::Found { url: n, key: None }
        }
    } else {
        SpecResolved::NotFound
    }
}

impl Config {
    /// The entry used when no reference at all is given: the default server,
    /// else the first entry, else failure.
    pub open spec fn default_choice(self) -> SpecResolved {
        match self.default_server {
            Some(d) => (SpecResolved::Found {
                url: entry_at(self.servers@, d@).url@,
                key: opt_view(entry_at(self.servers@, d@).api_key),
            }),
            None => if self.servers@.len() > 0 {
                (SpecResolved::Found {
                    url: self.servers@[0].url@,
                    key: opt_view(self.servers@[0].api_key),
                })
            } else {
                SpecResolved::NoServers
            },
        }
    }

    /// The reference string that resolution works on: the environment
    /// override when set, else the explicit reference.
    pub open spec fn chosen_ref(
        reference: Option<Seq<char>>,
        env_server: Option<Seq<char>>,
    ) -> Option<Seq<char>> {
        if env_server is Some {
            env_server
        } else {
            reference
        }
    }

    /// Full resolution, before the key override: precedence is the
    /// environment override, then the explicit reference, then the default
    /// choice.
    pub open spec fn resolve_spec(
        self,
        reference: Option<Seq<char>>,
        env_server: Option<Seq<char>>,
    ) -> SpecResolved {
        match Self::chosen_ref(reference, env_server) {
            Some(r) => resolve_ref_spec(self.servers@, r),
            None => self.default_choice(),
        }
    }

    /// Index of the first entry whose URL normalizes to `n`, or `None`.
    pub(crate) fn find_url_match(&self, n: &str) -> (r: Option<usize>)
        ensures
            r is Some <==> has_url_match(self.servers@, n@),
            r matches Some(i) ==> i == url_match_index(self.servers@, n@) && 0 <= i
                < self.servers@.len(),
    {
        let cnt = self.servers.len();
        let mut i: usize = 0;
        while i < cnt
            invariant
                cnt == self.servers@.len(),
                0 <= i <= cnt,
                url_match_index(self.servers@, n@) == url_match_index_from(
                    self.servers@,
                    n@,
                    i as int,
                ),
            decreases cnt - i,
        {
            match normalize_server_url(self.servers[i].url.as_str()) {
                Some(u) => {
                    if str_eq(u.as_str(), n) {
                        proof {
                            lemma_url_match_index(self.servers@, n@);
                        }
                        return Some(i);
                    }
                },
                None => {},
            }
            i = i + 1;
        }
        proof {
            lemma_url_match_index(self.servers@, n@);
        }
        None
    }

    /// A copy of entry `i` as a concrete target.
    fn entry_target(&self, i: usize) -> (r: ServerConfig)
        requires
            i < self.servers@.len(),
        ensures
            r.url@ == self.servers@[i as int].url@,
            r.api_key == self.servers@[i as int].api_key,
    {
        ServerConfig {
            url: self.servers[i].url.clone(),
            api_key: match &self.servers[i].api_key {
                Some(k) => Some(k.clone()),
                None => None,
            },
        }
    }

    /// Resolve an optional reference plus the environment into one concrete
    /// URL/key target, per the precedence above; a set environment key
    /// replaces whatever key was resolved.
    pub fn resolve_server(&self, reference: Option<&str>, env: &EnvSnapshot) -> (r: Result<
        ServerConfig,
        ConfigError,
    >)
        requires
            self.wf(),
        ensures
            match r {
                Ok(sc) => self.resolve_spec(opt_str_view(reference), opt_view(env.server))
                    matches SpecResolved::Found { url, key } && sc.url@ == url && opt_view(
                    sc.api_key,
                ) == (if env.api_key is Some {
                    opt_view(env.api_key)
                } else {
                    key
                }),
                Err(e) => match e {
                    ConfigError::ServerNotFound { name, known } => self.resolve_spec(
                        opt_str_view(reference),
                        opt_view(env.server),
                    ) is NotFound && (Self::chosen_ref(
                        opt_str_view(reference),
                        opt_view(env.server),
                    ) matches Some(cr) && name@ == cr) && known@.len() == self.servers@.len(),
                    ConfigError::NoServers => self.resolve_spec(
                        opt_str_view(reference),
                        opt_view(env.server),
                    ) is NoServers,
                    _ => false,
                },
            },
    {
        let chosen: Option<&str> = match &env.server {
            Some(s) => Some(s.as_str()),
            None => reference,
        };
        let base: Result<ServerConfig, ConfigError> = match chosen {
            Some(rf) => {
                match self.find_entry(rf) {
                    Some(i) => {
                        proof {
                            lemma_entry_index(self.servers@, rf@);
                        }
                        Ok(self.entry_target(i))
                    },
                    None => {
                        match normalize_server_url(rf) {
                            Some(n) => {
                                match self.find_url_match(n.as_str()) {
                                    Some(i) => {
                                        let t = self.entry_target(i);
                                        Ok(ServerConfig { url: n, api_key: t.api_key })
                                    },
                                    None => Ok(ServerConfig { url: n, api_key: None }),
                                }
                            },
                            None => Err(
                                ConfigError::ServerNotFound {
                                    name: String::from_str(rf),
                                    known: self.server_names(),
                                },
                            ),
                        }
                    },
                }
            },
            None => {
                match &self.default_server {
                    Some(d) => {
                        match self.find_entry(d.as_str()) {
                            Some(i) => {
                                proof {
                                    lemma_entry_index(self.servers@, d@);
                                }
                                Ok(self.entry_target(i))
                            },
                            None => {
                                proof {
                                    assert(false);
                                }
                                Err(ConfigError::NoServers)
                            },
                        }
                    },
                    None => {
                        if self.servers.len() > 0 {
                            Ok(self.entry_target(0))
                        } else {
                            Err(ConfigError::NoServers)
                        }
                    },
                }
            },
        };
        match base {
            Ok(sc) => {
                match &env.api_key {
                    Some(k) => Ok(ServerConfig { url: sc.url, api_key: Some(k.clone()) }),
                    None => Ok(sc),
                }
            },
            Err(e) => Err(e),
        }
    }

    /// The default (or fallback) server as a concrete target; fails when the
    /// store is empty.
    pub fn get_default_server(&self) -> (r: Result<ServerConfig, ConfigError>)
        requires
            self.wf(),
        ensures
            match r {
                Ok(sc) => self.default_choice() matches SpecResolved::Found { url, key }
                    && sc.url@ == url && opt_view(sc.api_key) == key,
                Err(e) => self.default_choice() is NoServers && e is NoServers,
            },
    {
        match &self.default_server {
            Some(d) => {
                match self.find_entry(d.as_str()) {
                    Some(i) => {
                        proof {
                            lemma_entry_index(self.servers@, d@);
                        }
                        Ok(self.entry_target(i))
                    },
                    None => {
                        proof {
                            assert(false);
                        }
                        Err(ConfigError::NoServers)
                    },
                }
            },
            None => {
                if self.servers.len() > 0 {
                    Ok(self.entry_target(0))
                } else {
                    Err(ConfigError::NoServers)
                }
            },
        }
    }

    /// URL of the default (or fallback) server.
    pub fn server_url(&self) -> (r: Result<String, ConfigError>)
        requires
            self.wf(),
        ensures
            match r {
                Ok(u) => self.default_choice() matches SpecResolved::Found { url, .. } && u@
                    == url,
                Err(e) => self.default_choice() is NoServers && e is NoServers,
            },
    {
        match self.get_default_server() {
            Ok(sc) => Ok(sc.url),
            Err(e) => Err(e),
        }
    }

    /// Key of the default (or fallback) server; fails when the store is empty
    /// or that entry carries no key.
    pub fn api_key(&self) -> (r: Result<String, ConfigError>)
        requires
            self.wf(),
        ensures
            match r {
                Ok(k) => self.default_choice() matches SpecResolved::Found { key, .. } && key
                    matches Some(kk) && k@ == kk,
                Err(e) => match e {
                    ConfigError::NoApiKey => self.default_choice() matches SpecResolved::Found {
                        key,
                        ..
                    } && key is None,
                    ConfigError::NoServers => self.default_choice() is NoServers,
                    _ => false,
                },
            },
    {
        match self.get_default_server() {
            Ok(sc) => match sc.api_key {
                Some(k) => Ok(k),
                None => Err(ConfigError::NoApiKey),
            },
            Err(e) => Err(e),
        }
    }
}

/// Precedence law: with a keyed entry `a`, a keyless entry `b`, and the
/// default pointing at `a`, resolution with nothing given yields `a`; an
/// environment override naming `b` wins over any explicit reference; and an
/// explicit reference naming `b` wins over the default.
pub proof fn lemma_resolution_precedence(
    c: Config,
    a: ServerEntry,
    b: ServerEntry,
    reference: Option<Seq<char>>,
)
    requires
        c.wf(),
        c.servers@ == seq![a, b],
        a.api_key is Some,
        b.api_key is None,
        c.default_server matches Some(d) && d@ == a.name@,
    ensures
        c.resolve_spec(None, None) == (SpecResolved::Found {
            url: a.url@,
            key: opt_view(a.api_key),
        }),
        c.resolve_spec(reference, Some(b.name@)) == (SpecResolved::Found {
            url: b.url@,
            key: Option::<Seq<char>>::None,
        }),
        c.resolve_spec(Some(b.name@), None) == (SpecResolved::Found {
            url: b.url@,
            key: Option::<Seq<char>>::None,
        }),
{
    assert(c.servers@[0] == a);
    assert(c.servers@[1] == b);
    assert(a.name@ != b.name@);
    lemma_entry_index(c.servers@, a.name@);
    lemma_entry_index(c.servers@, b.name@);
    assert(has_entry(c.servers@, a.name@)) by {
        assert(c.servers@[0].name@ == a.name@);
    }
    assert(has_entry(c.servers@, b.name@)) by {
        assert(c.servers@[1].name@ == b.name@);
    }
    assert(entry_index(c.servers@, a.name@) == 0);
    assert(entry_index(c.servers@, b.name@) == 1);
}

/// URL/name agreement law: resolving by an entry's own URL string yields the
/// same key as resolving by its name, provided no entry is literally named
/// that URL string and no earlier entry shares the same normalized URL.
pub proof fn lemma_url_matches_name(c: Config, i: int)
    requires
        c.wf(),
        0 <= i < c.servers@.len(),
        valid_server_url(c.servers@[i].url@),
        !has_entry(c.servers@, c.servers@[i].url@),
        forall|j: int|
            0 <= j < i ==> !url_match(c.servers@[j], normalize_url_spec(c.servers@[i].url@)),
    ensures
        ({
            let by_name = resolve_ref_spec(c.servers@, c.servers@[i].name@);
            let by_url = resolve_ref_spec(c.servers@, c.servers@[i].url@);
            &&& by_name matches SpecResolved::Found { key: k1, .. }
            &&& by_url matches SpecResolved::Found { key: k2, .. }
            &&& opt_view(c.servers@[i].api_key) == (by_name->Found_key)
            &&& (by_name->Found_key) == (by_url->Found_key)
        }),
{
    let s = c.servers@;
    let e = s[i];
    lemma_entry_index(s, e.name@);
    assert(has_entry(s, e.name@)) by {
        assert(s[i].name@ == e.name@);
    }
    let ni = entry_index(s, e.name@);
    assert(s[ni].name@ == e.name@);
    assert(ni == i) by {
        if ni < i {
            assert(s[ni].name@ != s[i].name@);
        }
    }
    let n = normalize_url_spec(e.url@);
    lemma_url_match_index(s, n);
    assert(has_url_match(s, n)) by {
        assert(url_match(s[i], n));
    }
    let ui = url_match_index(s, n);
    assert(ui == i) by {
        if ui < i {
            assert(!url_match(s[ui], n));
        } else if ui > i {
            assert(url_match(s[i], n));
        }
    }
}

/// Migration idempotence law: a second migration of an already-migrated
/// store is a no-op — it changes nothing and reports nothing changed.
pub proof fn lemma_migration_idempotent(
    c0: Config,
    c1: Config,
    c2: Config,
    ch1: bool,
    ch2: bool,
)
    requires
        Config::migrate_transition(c0, c1, ch1),
        Config::migrate_transition(c1, c2, ch2),
    ensures
        !ch2,
        c2 == c1,
{
}

/// Round-trip law: adding an entry under a fresh name and then removing that
/// name restores the server list to its prior state; a default pointer the
/// add created (because none was set) is cleared again rather than
/// re-elected, and a pre-existing default survives untouched.
pub proof fn lemma_add_remove_roundtrip(
    c0: Config,
    c1: Config,
    c2: Config,
    e: ServerEntry,
    was_default: bool,
)
    requires
        c0.wf(),
        !has_entry(c0.servers@, e.name@),
        Config::add_transition(c0, c1, e),
        Config::remove_transition(c1, c2, e.name@, was_default),
    ensures
        c2.servers@ =~= c0.servers@,
        c0.default_server is None ==> c2.default_server is None,
        c0.default_server is Some ==> c2.default_server == c0.default_server,
        c2.server == c0.server,
        c2.api_key == c0.api_key,
        c2.default_format == c0.default_format,
        c2.skip_update_check == c0.skip_update_check,
{
    lemma_entry_index(c0.servers@, e.name@);
    assert(c1.servers@ == c0.servers@.push(e));
    lemma_entry_index(c1.servers@, e.name@);
    let n0 = c0.servers@.len() as int;
    assert(c1.servers@[n0] == e);
    assert(has_entry(c1.servers@, e.name@));
    let i = entry_index(c1.servers@, e.name@);
    assert(i == n0) by {
        if i < n0 {
            assert(c1.servers@[i] == c0.servers@[i]);
            assert(has_entry(c0.servers@, e.name@));
        }
    }
    assert(c2.servers@ =~= c0.servers@);
    match c0.default_server {
        None => {
        },
        Some(d) => {
            assert(has_entry(c0.servers@, d@));
            assert(d@ != e.name@);
            assert(!was_default);
        },
    }
}

} // verus!
