//! Layered key/value configuration: repository-local entries override global
//! ones, and keys unset in both scopes resolve through a fixed table of
//! built-in defaults, so that "unset" is never conflated with "empty".
//!
//! Each scope keeps its entries sorted lexicographically by key and free of
//! duplicates; `list` therefore enumerates deterministically.

use vstd::prelude::*;
use vstd::string::*;
use crate::text::{lex_lt, lemma_lex_lt_irreflexive, str_eq, str_lt};

verus! {

/// Where a configuration entry lives.
#[derive(Clone, Copy, Debug, PartialEq, Eq, Structural)]
pub enum ConfigScope {
    Local,
    Global,
}

/// Failure of a configuration write.
#[derive(Clone, Copy, Debug, PartialEq, Eq, Structural)]
pub enum ConfigError {
    /// The key was empty.
    InvalidKey,
    /// The scope's persisted store cannot be written, e.g. `Local` outside a
    /// repository.
    WriteFailed,
}

/// One entry as reported by `list`.
pub struct ConfigEntry {
    pub key: String,
    pub value: String,
    pub scope: ConfigScope,
}

/// Keys are strictly sorted, hence unique.
pub open spec fn sorted_keys(s: Seq<(String, String)>) -> bool {
    forall|i: int, j: int| 0 <= i < j < s.len() ==> lex_lt(s[i].0@, s[j].0@)
}

/// First value stored under the key, if any.
pub open spec fn lookup(s: Seq<(String, String)>, k: Seq<char>) -> Option<Seq<char>>
    decreases s.len(),
{
    if s.len() == 0 {
        None
    } else if s[0].0@ == k {
        Some(s[0].1@)
    } else {
        lookup(s.skip(1), k)
    }
}

/// A key that matches no entry looks up to nothing.
pub proof fn lemma_lookup_none(s: Seq<(String, String)>, k: Seq<char>)
    requires
        forall|i: int| 0 <= i < s.len() ==> s[i].0@ != k,
    ensures
        lookup(s, k) is None,
    decreases s.len(),
{
    if s.len() > 0 {
        lemma_lookup_none(s.skip(1), k);
    }
}

/// The first entry carrying the key decides the lookup.
pub proof fn lemma_lookup_found(s: Seq<(String, String)>, k: Seq<char>, i: int)
    requires
        0 <= i < s.len(),
        s[i].0@ == k,
        forall|j: int| 0 <= j < i ==> s[j].0@ != k,
    ensures
        lookup(s, k) == Some(s[i].1@),
    decreases s.len(),
{
    if i > 0 {
        lemma_lookup_found(s.skip(1), k, i - 1);
    }
}

/// In a sorted sequence any entry carrying the key decides the lookup.
pub proof fn lemma_sorted_lookup_at(s: Seq<(String, String)>, k: Seq<char>, i: int)
    requires
        sorted_keys(s),
        0 <= i < s.len(),
        s[i].0@ == k,
    ensures
        lookup(s, k) == Some(s[i].1@),
{
    assert forall|j: int| 0 <= j < i implies s[j].0@ != k by {
        lemma_lex_lt_irreflexive(k);
    }
    lemma_lookup_found(s, k, i);
}

/// Layered configuration store. The writability flags record whether each
/// scope's backing store accepts writes; the surrounding binary sets them
/// when it constructs the store.
pub struct ConfigStore {
    pub local: Vec<(String, String)>,
    pub global: Vec<(String, String)>,
    pub local_writable: bool,
    pub global_writable: bool,
}

/// Built-in default for a key unset in both scopes; keys outside the table
/// default to the empty string.
pub open spec fn builtin_default_spec(k: Seq<char>) -> Seq<char> {
    if k == "branch.protected"@ {
        "main"@
    } else if k == "branch.base"@ {
        "HEAD"@
    } else {
        Seq::empty()
    }
}

/// Built-in default table, the last stage of the resolution chain.
pub fn builtin_default(key: &str) -> (r: String)
    ensures
        r@ == builtin_default_spec(key@),
{
    if str_eq(key, "branch.protected") {
        String::from_str("main")
    } else if str_eq(key, "branch.base") {
        String::from_str("HEAD")
    } else {
        String::new()
    }
}

/// Everything `set` promises: an empty key and an unwritable scope are
/// rejected without any change; otherwise the key now carries the value in
/// the chosen scope, and nothing else moved.
pub open spec fn set_post(
    pre: ConfigStore,
    post: ConfigStore,
    k: Seq<char>,
    v: Seq<char>,
    scope: ConfigScope,
    r: Result<(), ConfigError>,
) -> bool {
    &&& post.local_writable == pre.local_writable
    &&& post.global_writable == pre.global_writable
    &&& k.len() == 0 ==> r == Err::<(), ConfigError>(ConfigError::InvalidKey) && post == pre
    &&& k.len() > 0 && !pre.scope_writable(scope) ==> r == Err::<(), ConfigError>(
        ConfigError::WriteFailed,
    ) && post == pre
    &&& k.len() > 0 && pre.scope_writable(scope) ==> {
        &&& r == Ok::<(), ConfigError>(())
        &&& post.spec_get_scoped(scope, k) == Some(v)
        &&& forall|k2: Seq<char>|
            k2 != k ==> post.spec_get_scoped(scope, k2) == pre.spec_get_scoped(scope, k2)
        &&& forall|sc2: ConfigScope| sc2 != scope ==> post.scope_entries(sc2) == pre.scope_entries(sc2)
    }
}

/// Everything `list` promises of its result: the entries of the asked
/// scope in stored (sorted) order, or the local entries followed by the
/// global ones when no scope is given.
pub open spec fn list_matches(store: ConfigStore, scope: Option<ConfigScope>, r: Seq<ConfigEntry>) -> bool {
    match scope {
        Some(sc) => {
            &&& r.len() == store.scope_entries(sc).len()
            &&& forall|i: int|
                0 <= i < r.len() ==> r[i].key@ == store.scope_entries(sc)[i].0@ && r[i].value@
                    == store.scope_entries(sc)[i].1@ && r[i].scope == sc
        },
        None => {
            &&& r.len() == store.local@.len() + store.global@.len()
            &&& forall|i: int|
                0 <= i < store.local@.len() ==> r[i].key@ == store.local@[i].0@ && r[i].value@
                    == store.local@[i].1@ && r[i].scope == ConfigScope::Local
            &&& forall|i: int|
                store.local@.len() <= i < r.len() ==> r[i].key@ == store.global@[i
                    - store.local@.len()].0@ && r[i].value@ == store.global@[i
                    - store.local@.len()].1@ && r[i].scope == ConfigScope::Global
        },
    }
}

impl ConfigStore {
    /// Entries of one scope.
    pub open spec fn scope_entries(&self, scope: ConfigScope) -> Seq<(String, String)> {
        match scope {
            ConfigScope::Local => self.local@,
            ConfigScope::Global => self.global@,
        }
    }

    pub open spec fn scope_writable(&self, scope: ConfigScope) -> bool {
        match scope {
            ConfigScope::Local => self.local_writable,
            ConfigScope::Global => self.global_writable,
        }
    }

    /// Both scopes keep their keys strictly sorted.
    pub open spec fn wf(&self) -> bool {
        sorted_keys(self.local@) && sorted_keys(self.global@)
    }

    /// Value of the key in one scope.
    pub open spec fn spec_get_scoped(&self, scope: ConfigScope, k: Seq<char>) -> Option<Seq<char>> {
        lookup(self.scope_entries(scope), k)
    }

    /// Value of the key with local overriding global; `None` when unset in both.
    pub open spec fn spec_get(&self, k: Seq<char>) -> Option<Seq<char>> {
        match lookup(self.local@, k) {
            Some(v) => Some(v),
            None => lookup(self.global@, k),
        }
    }

    /// Full resolution chain: local, then global, then the built-in default.
    pub open spec fn spec_resolve(&self, k: Seq<char>) -> Seq<char> {
        match self.spec_get(k) {
            Some(v) => v,
            None => builtin_default_spec(k),
        }
    }

    /// An empty store.
    pub fn new(local_writable: bool, global_writable: bool) -> (r: ConfigStore)
        ensures
            r.wf(),
            r.local@.len() == 0,
            r.global@.len() == 0,
            r.local_writable == local_writable,
            r.global_writable == global_writable,
    {
        ConfigStore { local: Vec::new(), global: Vec::new(), local_writable, global_writable }
    }

    /// Reads the key in one scope; missing keys are not an error.
    pub fn get_scoped(&self, key: &str, scope: ConfigScope) -> (r: Option<String>)
        ensures
            match r {
                Some(v) => self.spec_get_scoped(scope, key@) == Some(v@),
                None => self.spec_get_scoped(scope, key@) is None,
            },
    {
        let entries = match scope {
            ConfigScope::Local => &self.local,
            ConfigScope::Global => &self.global,
        };
        let mut i: usize = 0;
        while i < entries.len()
            invariant
                i <= entries@.len(),
                entries@ == self.scope_entries(scope),
                forall|j: int| 0 <= j < i ==> entries@[j].0@ != key@,
            decreases entries@.len() - i,
        {
            if str_eq(entries[i].0.as_str(), key) {
                let v = entries[i].1.clone();
                proof {
                    lemma_lookup_found(entries@, key@, i as int);
                }
                return Some(v);
            }
            i += 1;
        }
        proof {
            lemma_lookup_none(entries@, key@);
        }
        None
    }

    /// Reads the key, local scope first, then global.
    pub fn get(&self, key: &str) -> (r: Option<String>)
        ensures
            match r {
                Some(v) => self.spec_get(key@) == Some(v@),
                None => self.spec_get(key@) is None,
            },
    {
        match self.get_scoped(key, ConfigScope::Local) {
            Some(v) => Some(v),
            None => self.get_scoped(key, ConfigScope::Global),
        }
    }

    /// Reads the key through the whole resolution chain: local, global, then
    /// the built-in default table.
    pub fn get_or_default(&self, key: &str) -> (r: String)
        ensures
            r@ == self.spec_resolve(key@),
    {
        match self.get(key) {
            Some(v) => v,
            None => builtin_default(key),
        }
    }

    /// Writes the key in the given scope. Rejects an empty key, and a scope
    /// whose backing store is unwritable; existing entries under other keys
    /// are never touched.
    pub fn set(&mut self, key: &str, value: &str, scope: ConfigScope) -> (r: Result<
        (),
        ConfigError,
    >)
        requires
            old(self).wf(),
        ensures
            final(self).wf(),
            set_post(*old(self), *final(self), key@, value@, scope, r),
    {
        if key.is_empty() {
            return Err(ConfigError::InvalidKey);
        }
        let writable = match scope {
            ConfigScope::Local => self.local_writable,
            ConfigScope::Global => self.global_writable,
        };
        if !writable {
            return Err(ConfigError::WriteFailed);
        }
        match scope {
            ConfigScope::Local => upsert(&mut self.local, key, value),
            ConfigScope::Global => upsert(&mut self.global, key, value),
        }
        Ok(())
    }

    /// Lists entries: one scope alone, or local entries before global ones
    /// when no scope is given; within a scope, entries come sorted by key.
    pub fn list(&self, scope: Option<ConfigScope>) -> (r: Vec<ConfigEntry>)
        ensures
            list_matches(*self, scope, r@),
    {
        match scope {
            Some(ConfigScope::Local) => tagged_vec(&self.local, ConfigScope::Local),
            Some(ConfigScope::Global) => tagged_vec(&self.global, ConfigScope::Global),
            None => {
                let mut r = tagged_vec(&self.local, ConfigScope::Local);
                let mut g = tagged_vec(&self.global, ConfigScope::Global);
                r.append(&mut g);
                r
            },
        }
    }
}

/// Every entry of one scope, tagged with it, in stored order.
fn tagged_vec(entries: &Vec<(String, String)>, scope: ConfigScope) -> (r: Vec<ConfigEntry>)
    ensures
        r@.len() == entries@.len(),
        forall|i: int|
            0 <= i < entries@.len() ==> r@[i].key@ == entries@[i].0@ && r@[i].value@
                == entries@[i].1@ && r@[i].scope == scope,
{
    let mut r: Vec<ConfigEntry> = Vec::new();
    let mut i: usize = 0;
    while i < entries.len()
        invariant
            i <= entries@.len(),
            r@.len() == i,
            forall|j: int|
                0 <= j < i ==> r@[j].key@ == entries@[j].0@ && r@[j].value@ == entries@[j].1@
                    && r@[j].scope == scope,
        decreases entries@.len() - i,
    {
        let entry = ConfigEntry {
            key: entries[i].0.clone(),
            value: entries[i].1.clone(),
            scope,
        };
        let ghost gk = entry.key@;
        let ghost gv = entry.value@;
        let ghost prev = r@;
        r.push(entry);
        proof {
            assert(r@.len() == i + 1);
            assert(r@[i as int].key@ == gk);
            assert(r@[i as int].value@ == gv);
            assert(r@[i as int].scope == scope);
            assert(forall|j: int| 0 <= j < i ==> r@[j] == prev[j]);
        }
        i += 1;
    }
    r
}

/// Inserts or replaces the entry for the key, keeping the keys sorted.
fn upsert(entries: &mut Vec<(String, String)>, key: &str, value: &str)
    requires
        sorted_keys(old(entries)@),
    ensures
        sorted_keys(final(entries)@),
        lookup(final(entries)@, key@) == Some(value@),
        forall|k2: Seq<char>|
            k2 != key@ ==> lookup(final(entries)@, k2) == lookup(old(entries)@, k2),
{
    let ghost s0 = entries@;
    let mut pos: usize = 0;
    while pos < entries.len() && str_lt(entries[pos].0.as_str(), key)
        invariant
            pos <= entries@.len(),
            entries@ == s0,
            forall|j: int| 0 <= j < pos ==> lex_lt(entries@[j].0@, key@),
        decreases entries@.len() - pos,
    {
        pos += 1;
    }
    let pair = (key.to_owned(), value.to_owned());
    if pos < entries.len() && str_eq(entries[pos].0.as_str(), key) {
        entries.remove(pos);
        entries.insert(pos, pair);
        proof {
            let s1 = entries@;
            assert(s1.len() == s0.len());
            assert forall|j: int| 0 <= j < s1.len() && j != pos implies s1[j] == s0[j] by {}
            assert(s1[pos as int].0@ == key@ && s1[pos as int].1@ == value@);
            lemma_upsert_effect(s0, s1, key@, value@, pos as int);
        }
    } else {
        entries.insert(pos, pair);
        proof {
            let s1 = entries@;
            assert(s1.len() == s0.len() + 1);
            assert forall|j: int| 0 <= j < pos implies s1[j] == s0[j] by {}
            assert forall|j: int| pos < j < s1.len() implies s1[j] == s0[j - 1] by {}
            assert(s1[pos as int].0@ == key@ && s1[pos as int].1@ == value@);
            if pos < s0.len() {
                assert(s0[pos as int].0@ != key@);
                assert(!lex_lt(s0[pos as int].0@, key@));
                if !lex_lt(key@, s0[pos as int].0@) {
                    crate::text::lemma_lex_lt_connected(s0[pos as int].0@, key@);
                    assert(false);
                }
            }
            lemma_insert_effect(s0, s1, key@, value@, pos as int);
        }
    }
}

/// Replacing the entry at a position that already carries the key changes
/// that key's value and nothing else.
proof fn lemma_upsert_effect(
    s0: Seq<(String, String)>,
    s1: Seq<(String, String)>,
    k: Seq<char>,
    v: Seq<char>,
    pos: int,
)
    requires
        sorted_keys(s0),
        0 <= pos < s0.len(),
        s0[pos].0@ == k,
        s1.len() == s0.len(),
        forall|j: int| 0 <= j < s1.len() && j != pos ==> s1[j] == s0[j],
        s1[pos].0@ == k,
        s1[pos].1@ == v,
    ensures
        sorted_keys(s1),
        lookup(s1, k) == Some(v),
        forall|k2: Seq<char>| k2 != k ==> lookup(s1, k2) == lookup(s0, k2),
{
    assert forall|i: int, j: int| 0 <= i < j < s1.len() implies lex_lt(s1[i].0@, s1[j].0@) by {
        assert(lex_lt(s0[i].0@, s0[j].0@));
        assert(s1[i].0@ == s0[i].0@);
        assert(s1[j].0@ == s0[j].0@);
    }
    lemma_sorted_lookup_at(s1, k, pos);
    assert forall|k2: Seq<char>| k2 != k implies lookup(s1, k2) == lookup(s0, k2) by {
        if exists|j: int| 0 <= j < s0.len() && s0[j].0@ == k2 {
            let j = choose|j: int| 0 <= j < s0.len() && s0[j].0@ == k2;
            lemma_sorted_lookup_at(s0, k2, j);
            assert(s1[j] == s0[j]);
            lemma_sorted_lookup_at(s1, k2, j);
        } else {
            lemma_lookup_none(s0, k2);
            assert forall|j: int| 0 <= j < s1.len() implies s1[j].0@ != k2 by {
                if j != pos {
                    assert(s1[j] == s0[j]);
                }
            }
            lemma_lookup_none(s1, k2);
        }
    }
}

/// Inserting a fresh key at its sorted position adds that key and changes
/// nothing else.
proof fn lemma_insert_effect(
    s0: Seq<(String, String)>,
    s1: Seq<(String, String)>,
    k: Seq<char>,
    v: Seq<char>,
    pos: int,
)
    requires
        sorted_keys(s0),
        0 <= pos <= s0.len(),
        forall|j: int| 0 <= j < pos ==> lex_lt(s0[j].0@, k),
        pos < s0.len() ==> lex_lt(k, s0[pos].0@),
        s1.len() == s0.len() + 1,
        forall|j: int| 0 <= j < pos ==> s1[j] == s0[j],
        forall|j: int| pos < j < s1.len() ==> s1[j] == s0[j - 1],
        s1[pos].0@ == k,
        s1[pos].1@ == v,
    ensures
        sorted_keys(s1),
        lookup(s1, k) == Some(v),
        forall|k2: Seq<char>| k2 != k ==> lookup(s1, k2) == lookup(s0, k2),
{
    assert forall|i: int, j: int| 0 <= i < j < s1.len() implies lex_lt(s1[i].0@, s1[j].0@) by {
        if i < pos && j < pos {
            assert(lex_lt(s0[i].0@, s0[j].0@));
        } else if i < pos && j == pos {
            assert(lex_lt(s0[i].0@, k));
        } else if i < pos && j > pos {
            assert(lex_lt(s0[i].0@, s0[j - 1].0@));
        } else if i == pos {
            if pos < s0.len() && j - 1 > pos {
                assert(lex_lt(s0[pos].0@, s0[j - 1].0@));
                crate::text::lemma_lex_lt_transitive(k, s0[pos].0@, s0[j - 1].0@);
            }
        } else {
            assert(lex_lt(s0[i - 1].0@, s0[j - 1].0@));
        }
    }
    lemma_sorted_lookup_at(s1, k, pos);
    assert forall|k2: Seq<char>| k2 != k implies lookup(s1, k2) == lookup(s0, k2) by {
        if exists|j: int| 0 <= j < s0.len() && s0[j].0@ == k2 {
            let j = choose|j: int| 0 <= j < s0.len() && s0[j].0@ == k2;
            lemma_sorted_lookup_at(s0, k2, j);
            if j < pos {
                lemma_sorted_lookup_at(s1, k2, j);
            } else {
                assert(s1[j + 1] == s0[j]);
                lemma_sorted_lookup_at(s1, k2, j + 1);
            }
        } else {
            lemma_lookup_none(s0, k2);
            assert forall|j: int| 0 <= j < s1.len() implies s1[j].0@ != k2 by {
                if j < pos {
                    assert(s1[j] == s0[j]);
                } else if j > pos {
                    assert(s1[j] == s0[j - 1]);
                }
            }
            lemma_lookup_none(s1, k2);
        }
    }
}

} // verus!
