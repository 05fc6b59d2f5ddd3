use vstd::prelude::*;

use crate::java::JavaInstallation;
use crate::text::copy_string;

verus! {

/// The map that a list of entries stands for: a later entry for a key
/// replaces an earlier one.
pub open spec fn entries_map(entries: Seq<(String, String)>) -> Map<Seq<char>, Seq<char>>
    decreases entries.len(),
{
    if entries.len() == 0 {
        Map::empty()
    } else {
        entries_map(entries.drop_last()).insert(entries.last().0@, entries.last().1@)
    }
}

/// A string-keyed map of settings.
#[derive(Debug, Clone)]
pub struct Config {
    entries: Vec<(String, String)>,
}

impl View for Config {
    type V = Map<Seq<char>, Seq<char>>;

    closed spec fn view(&self) -> Map<Seq<char>, Seq<char>> {
        entries_map(self.entries@)
    }
}

/// Entries after index `i` that do not name `key` leave its value as it was.
proof fn lemma_untouched_tail(entries: Seq<(String, String)>, i: int, key: Seq<char>)
    requires
        0 <= i <= entries.len(),
        forall|j: int| i <= j < entries.len() ==> #[trigger] entries[j].0@ != key,
    ensures
        entries_map(entries).contains_key(key) == entries_map(entries.take(i)).contains_key(key),
        entries_map(entries)[key] == entries_map(entries.take(i))[key],
    decreases entries.len() - i,
{
    if i < entries.len() {
        assert(entries.drop_last().take(i) == entries.take(i));
        lemma_untouched_tail(entries.drop_last(), i, key);
    } else {
        assert(entries.take(i) == entries);
    }
}

/// The map of two lists one after the other: the second's entries win.
proof fn lemma_entries_concat(a: Seq<(String, String)>, b: Seq<(String, String)>)
    ensures
        entries_map(a + b) == entries_map(a).union_prefer_right(entries_map(b)),
    decreases b.len(),
{
    if b.len() == 0 {
        assert(a + b == a);
        assert(entries_map(a).union_prefer_right(entries_map(b)) =~= entries_map(a));
    } else {
        assert((a + b).drop_last() == a + b.drop_last());
        lemma_entries_concat(a, b.drop_last());
        assert(entries_map(a + b) =~= entries_map(a).union_prefer_right(entries_map(b)));
    }
}

/// Lists whose entries have the same texts stand for the same map.
proof fn lemma_same_texts(a: Seq<(String, String)>, b: Seq<(String, String)>)
    requires
        a.len() == b.len(),
        forall|j: int| 0 <= j < a.len() ==> (#[trigger] a[j]).0@ == b[j].0@ && a[j].1@ == b[j].1@,
    ensures
        entries_map(a) == entries_map(b),
    decreases a.len(),
{
    if a.len() > 0 {
        lemma_same_texts(a.drop_last(), b.drop_last());
    }
}

/// A list of one entry stands for a map of one key.
pub proof fn lemma_single_entry(entries: Seq<(String, String)>)
    requires
        entries.len() == 1,
    ensures
        entries_map(entries) == map![entries[0].0@ => entries[0].1@],
{
    assert(entries.drop_last() == Seq::<(String, String)>::empty());
    assert(entries_map(entries.drop_last()) == Map::<Seq<char>, Seq<char>>::empty());
    assert(entries_map(entries) =~= map![entries[0].0@ => entries[0].1@]);
}

impl Config {
    /// A config holding the given entries; where a key repeats, the later entry counts.
    pub fn new(entries: Vec<(String, String)>) -> (r: Config)
        ensures
            r@ == entries_map(entries@),
    {
        Config { entries }
    }

    /// A config with no entries.
    pub fn empty() -> (r: Config)
        ensures
            r@ == Map::<Seq<char>, Seq<char>>::empty(),
    {
        Config { entries: Vec::new() }
    }

    /// The value set for `entry`, if any.
    pub fn get(&self, entry: &str) -> (r: Option<&str>)
        ensures
            r is Some == self@.contains_key(entry@),
            r matches Some(v) ==> v@ == self@[entry@],
    {
        let key = entry.to_owned();
        let mut i: usize = self.entries.len();
        while i > 0
            invariant
                i <= self.entries@.len(),
                key@ == entry@,
                forall|j: int| i <= j < self.entries@.len() ==> #[trigger] self.entries@[j].0@ != key@,
            decreases i,
        {
            if self.entries[i - 1].0 == key {
                proof {
                    lemma_untouched_tail(self.entries@, i as int, key@);
                    assert(self.entries@.take(i as int).drop_last() == self.entries@.take(
                        i as int - 1,
                    ));
                }
                return Some(self.entries[i - 1].1.as_str());
            }
            i = i - 1;
        }
        proof {
            lemma_untouched_tail(self.entries@, 0, key@);
        }
        None
    }

    /// Sets `entry` to `value`.
    pub fn set(&mut self, entry: &str, value: String)
        ensures
            final(self)@ == old(self)@.insert(entry@, value@),
    {
        let key = entry.to_owned();
        self.entries.push((key, value));
        proof {
            assert(self.entries@.drop_last() == old(self).entries@);
        }
    }

    /// Removes `entry`, if it is set.
    pub fn remove(&mut self, entry: &str)
        ensures
            final(self)@ == old(self)@.remove(entry@),
    {
        let ghost before = self.entries@;
        let key = entry.to_owned();
        let mut kept: Vec<(String, String)> = Vec::new();
        let mut i: usize = 0;
        while i < self.entries.len()
            invariant
                i <= self.entries@.len(),
                self.entries@ == before,
                key@ == entry@,
                entries_map(kept@) == entries_map(before.take(i as int)).remove(entry@),
            decreases self.entries.len() - i,
        {
            let k = copy_string(&self.entries[i].0);
            let v = copy_string(&self.entries[i].1);
            proof {
                assert(before.take(i as int + 1).drop_last() == before.take(i as int));
            }
            if !(k == key) {
                let ghost prev = kept@;
                kept.push((k, v));
                proof {
                    assert(kept@.drop_last() == prev);
                    assert(entries_map(kept@) =~= entries_map(before.take(i as int + 1)).remove(
                        entry@,
                    ));
                }
            } else {
                proof {
                    assert(entries_map(kept@) =~= entries_map(before.take(i as int + 1)).remove(
                        entry@,
                    ));
                }
            }
            i = i + 1;
        }
        proof {
            assert(before.take(before.len() as int) == before);
        }
        self.entries = kept;
    }

    /// The global config written on first use: 512 to 2048 megabytes of heap,
    /// a placeholder player, and the newest Java runtime. None where no runtime
    /// was found.
    pub fn create_default(latest: Option<&JavaInstallation>) -> (r: Option<Config>)
        ensures
            r is Some == latest is Some,
            r matches Some(c) ==> c@ == map![
                "min_ram"@ => "512"@,
                "max_ram"@ => "2048"@,
                "auth_player_name"@ => "dev"@,
                "auth_access_token"@ => "0"@,
                "current_java_path"@ => latest->0.path@,
            ],
    {
        let java = match latest {
            None => return None,
            Some(j) => j,
        };
        let mut c = Config::empty();
        c.set("min_ram", "512".to_owned());
        c.set("max_ram", "2048".to_owned());
        c.set("auth_player_name", "dev".to_owned());
        c.set("auth_access_token", "0".to_owned());
        c.set("current_java_path", copy_string(&java.path));
        proof {
            assert(c@ =~= map![
                "min_ram"@ => "512"@,
                "max_ram"@ => "2048"@,
                "auth_player_name"@ => "dev"@,
                "auth_access_token"@ => "0"@,
                "current_java_path"@ => java.path@,
            ]);
        }
        Some(c)
    }

    /// The entries of this config, for storing it; where a key repeats, the
    /// later entry counts.
    pub fn to_entries(&self) -> (r: Vec<(String, String)>)
        ensures
            entries_map(r@) == self@,
    {
        self.copy().entries
    }

    /// A copy of this config.
    pub fn copy(&self) -> (r: Config)
        ensures
            r@ == self@,
    {
        let mut entries: Vec<(String, String)> = Vec::new();
        let mut i: usize = 0;
        while i < self.entries.len()
            invariant
                i <= self.entries@.len(),
                entries@.len() == i,
                forall|j: int|
                    0 <= j < i ==> (#[trigger] entries@[j]).0@ == self.entries@[j].0@
                        && entries@[j].1@ == self.entries@[j].1@,
            decreases self.entries.len() - i,
        {
            let k = copy_string(&self.entries[i].0);
            let v = copy_string(&self.entries[i].1);
            entries.push((k, v));
            i = i + 1;
        }
        proof {
            lemma_same_texts(entries@, self.entries@);
        }
        Config { entries }
    }

    /// A config with the entries of both: where both set a key, `self`'s value wins.
    pub fn merge(self, other: Config) -> (r: Config)
        ensures
            r@ == other@.union_prefer_right(self@),
    {
        let mut other = other;
        let ghost a = other.entries@;
        let ghost b = self.entries@;
        let mut mine = self.entries;
        other.entries.append(&mut mine);
        proof {
            lemma_entries_concat(a, b);
        }
        other
    }
}

} // verus!
