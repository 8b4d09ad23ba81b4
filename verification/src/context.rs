//! The session context: the configuration, the resolved home directory, the
//! history file path, the alias table and the last exit status. It is created
//! once at session start and passed by mutable reference through every stage
//! that needs it.
//!
//! The alias table is an association list with unique keys, read as a map
//! from alias name to its unparsed replacement line; a second write to a name
//! overwrites its value.

use vstd::prelude::*;

use crate::config::{default_config, YuiConfig};
use crate::strutil::str_eq;

verus! {

/// The map an alias association list denotes; a later pair for the same name
/// wins.
pub open spec fn alias_map_of(s: Seq<(String, String)>) -> Map<Seq<char>, Seq<char>>
    decreases s.len(),
{
    if s.len() == 0 {
        Map::empty()
    } else {
        alias_map_of(s.drop_last()).insert(s.last().0@, s.last().1@)
    }
}

/// The session context.
pub struct Context {
    pub config: YuiConfig,
    pub home: String,
    pub histfile: String,
    pub aliases: Vec<(String, String)>,
    pub laststatus: i32,
}

impl Context {
    /// The alias table as a map from name to replacement line.
    pub open spec fn alias_map(&self) -> Map<Seq<char>, Seq<char>> {
        alias_map_of(self.aliases@)
    }

    /// Well-formed: alias names are unique.
    pub open spec fn wf(&self) -> bool {
        forall|i: int, j: int|
            0 <= i < j < self.aliases@.len() ==> self.aliases@[i].0@ != self.aliases@[j].0@
    }

    /// A fresh session: the default configuration, no aliases, a zero exit
    /// status, and the history file under the given home directory.
    pub fn new(home: String) -> (r: Context)
        ensures
            r.wf(),
            r.config == default_config(),
            r.home == home,
            r.histfile@ == home@ + "/.yui_history"@,
            r.alias_map() == Map::<Seq<char>, Seq<char>>::empty(),
            r.laststatus == 0,
    {
        let histfile = home.clone().concat("/.yui_history");
        Context {
            config: YuiConfig::default(),
            home,
            histfile,
            aliases: Vec::new(),
            laststatus: 0,
        }
    }

    /// Bind an alias name to a replacement line; a rebound name takes the new
    /// value. Nothing else of the session is touched.
    pub fn new_alias(&mut self, alias: String, value: String)
        requires
            old(self).wf(),
        ensures
            final(self).wf(),
            final(self).alias_map() == old(self).alias_map().insert(alias@, value@),
            final(self).config == old(self).config,
            final(self).home == old(self).home,
            final(self).histfile == old(self).histfile,
            final(self).laststatus == old(self).laststatus,
    {
        let n = self.aliases.len();
        let mut i: usize = 0;
        while i < n
            invariant
                0 <= i <= n,
                n == self.aliases@.len(),
                *self == *old(self),
                old(self).wf(),
                forall|j: int| 0 <= j < i ==> self.aliases@[j].0@ != alias@,
            decreases n - i,
        {
            if str_eq(self.aliases[i].0.as_str(), alias.as_str()) {
                let ghost pre = self.aliases@;
                self.aliases.remove(i);
                self.aliases.insert(i, (alias, value));
                proof {
                    assert(self.aliases@ =~= pre.update(i as int, self.aliases@[i as int]));
                    lemma_alias_map_update(pre, i as int, self.aliases@[i as int]);
                }
                return ;
            }
            i = i + 1;
        }
        let ghost pre = self.aliases@;
        let ghost av = alias@;
        let ghost vv = value@;
        self.aliases.push((alias, value));
        proof {
            assert(self.aliases@.drop_last() =~= pre);
            assert(self.aliases@.last().0@ == av);
            assert(self.aliases@.last().1@ == vv);
        }
    }

    /// Look an alias name up; `Some` holds a copy of its replacement line.
    pub fn alias_lookup(&self, name: &str) -> (r: Option<String>)
        requires
            self.wf(),
        ensures
            r is Some <==> self.alias_map().contains_key(name@),
            r is Some ==> r->0@ == self.alias_map()[name@],
    {
        let n = self.aliases.len();
        let mut i: usize = 0;
        while i < n
            invariant
                0 <= i <= n,
                n == self.aliases@.len(),
                self.wf(),
                forall|j: int| 0 <= j < i ==> self.aliases@[j].0@ != name@,
            decreases n - i,
        {
            if str_eq(self.aliases[i].0.as_str(), name) {
                proof {
                    lemma_alias_map_value(self.aliases@, i as int);
                }
                return Some(self.aliases[i].1.clone());
            }
            i = i + 1;
        }
        proof {
            lemma_alias_map_keys(self.aliases@, name@);
        }
        None
    }

    /// Whether the alias table is empty.
    pub fn aliases_is_empty(&self) -> (r: bool)
        ensures
            r == (self.aliases@.len() == 0),
    {
        self.aliases.len() == 0
    }
}

/// A name is in the alias map exactly when some pair binds it.
proof fn lemma_alias_map_keys(s: Seq<(String, String)>, k: Seq<char>)
    ensures
        alias_map_of(s).contains_key(k) <==> exists|i: int| 0 <= i < s.len() && s[i].0@ == k,
    decreases s.len(),
{
    if s.len() > 0 {
        lemma_alias_map_keys(s.drop_last(), k);
        if alias_map_of(s).contains_key(k) {
            if s.last().0@ != k {
                let i = choose|i: int| 0 <= i < s.drop_last().len() && s.drop_last()[i].0@ == k;
                assert(s[i].0@ == k);
            } else {
                assert(s[s.len() - 1].0@ == k);
            }
        }
        if exists|i: int| 0 <= i < s.len() && s[i].0@ == k {
            let i = choose|i: int| 0 <= i < s.len() && s[i].0@ == k;
            if i < s.len() - 1 {
                assert(s.drop_last()[i].0@ == k);
            }
        }
    }
}

/// With no later pair for the same name, a pair's value is the map's value.
proof fn lemma_alias_map_value(s: Seq<(String, String)>, i: int)
    requires
        0 <= i < s.len(),
        forall|j: int| i < j < s.len() ==> s[j].0@ != s[i].0@,
    ensures
        alias_map_of(s).contains_key(s[i].0@),
        alias_map_of(s)[s[i].0@] == s[i].1@,
    decreases s.len(),
{
    if i == s.len() - 1 {
    } else {
        assert(s.drop_last()[i] == s[i]);
        lemma_alias_map_value(s.drop_last(), i);
    }
}

/// Replacing the one pair that binds a name reads as a map insert.
proof fn lemma_alias_map_update(s: Seq<(String, String)>, i: int, p: (String, String))
    requires
        0 <= i < s.len(),
        p.0@ == s[i].0@,
        forall|j: int, k: int| 0 <= j < k < s.len() ==> s[j].0@ != s[k].0@,
    ensures
        alias_map_of(s.update(i, p)) == alias_map_of(s).insert(p.0@, p.1@),
    decreases s.len(),
{
    let t = s.update(i, p);
    if i == s.len() - 1 {
        assert(t.drop_last() =~= s.drop_last());
        assert(t.last() == p);
        assert(alias_map_of(t) =~= alias_map_of(s).insert(p.0@, p.1@));
    } else {
        assert(t.drop_last() =~= s.drop_last().update(i, p));
        assert(t.last() == s.last());
        lemma_alias_map_update(s.drop_last(), i, p);
        assert(s.last().0@ != s[i].0@);
        assert(alias_map_of(t) == alias_map_of(s.drop_last()).insert(p.0@, p.1@).insert(
            s.last().0@,
            s.last().1@,
        ));
        assert(alias_map_of(s.drop_last()).insert(p.0@, p.1@).insert(s.last().0@, s.last().1@)
            =~= alias_map_of(s.drop_last()).insert(s.last().0@, s.last().1@).insert(p.0@, p.1@));
    }
}

} // verus!
