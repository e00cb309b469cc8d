use vstd::prelude::*;

use crate::manager::{push_decimal, decimal};

verus! {

/// One supervised command: its name, the shell command line, and the
/// `KEY=VALUE` overrides applied to its environment.
#[derive(Debug, Clone)]
pub struct Program {
    pub name: String,
    pub command: String,
    pub environment: Vec<String>,
}

/// Why an environment entry could not be materialised.
#[derive(Debug, Clone, PartialEq, Eq, Structural)]
pub enum EnvError {
    /// The entry at `index` holds no `=`.
    MissingSeparator { index: usize },
}

/// The text reported for a task whose environment could not be materialised.
pub open spec fn env_error_text(e: EnvError) -> Seq<char> {
    match e {
        EnvError::MissingSeparator { index } => "environment entry "@ + decimal(index as nat)
            + " has no '='"@,
    }
}

impl EnvError {
    pub fn message(&self) -> (r: String)
        ensures
            r@ == env_error_text(*self),
    {
        match self {
            EnvError::MissingSeparator { index } => {
                let mut r = String::from_str("environment entry ");
                push_decimal(&mut r, *index as u64);
                r.append(" has no '='");
                r
            },
        }
    }
}

/// Position of the first `=` in `s` at or after `i`, or `s.len()` if none.
pub open spec fn separator_from(s: Seq<char>, i: int) -> int
    decreases s.len() - i,
{
    if i < 0 || i >= s.len() {
        s.len() as int
    } else if s[i] == '=' {
        i
    } else {
        separator_from(s, i + 1)
    }
}

/// Position of the first `=` in `s`, or `s.len()` if there is none.
pub open spec fn separator_index(s: Seq<char>) -> int {
    separator_from(s, 0)
}

/// The key and value of an entry, split at its first `=`; `None` without one.
pub open spec fn env_pair(s: Seq<char>) -> Option<(Seq<char>, Seq<char>)> {
    let i = separator_index(s);
    if i < s.len() {
        Some((s.subrange(0, i), s.subrange(i + 1, s.len() as int)))
    } else {
        None
    }
}

/// Do the two strings carry exactly the key and value of `entry`?
pub open spec fn pair_matches(p: (String, String), entry: Seq<char>) -> bool {
    env_pair(entry) == Some((p.0@, p.1@))
}

proof fn lemma_separator_from_bounds(s: Seq<char>, i: int)
    requires
        0 <= i <= s.len(),
    ensures
        i <= separator_from(s, i) <= s.len(),
        separator_from(s, i) < s.len() ==> s[separator_from(s, i)] == '=',
        forall|j: int| i <= j < separator_from(s, i) ==> s[j] != '=',
    decreases s.len() - i,
{
    if i < s.len() && s[i] != '=' {
        lemma_separator_from_bounds(s, i + 1);
    }
}

/// Splits one entry at its first `=`.
pub fn split_env_entry(entry: &str) -> (r: Option<(String, String)>)
    ensures
        match r {
            Some(p) => pair_matches(p, entry@),
            None => env_pair(entry@) is None,
        },
{
    let n = entry.unicode_len();
    let mut i: usize = 0;
    while i < n
        invariant
            n == entry@.len(),
            0 <= i <= n,
            separator_from(entry@, i as int) == separator_index(entry@),
            forall|j: int| 0 <= j < i ==> entry@[j] != '=',
        decreases n - i,
    {
        if entry.get_char(i) == '=' {
            proof {
                lemma_separator_from_bounds(entry@, i as int);
            }
            let key = entry.substring_char(0, i);
            let val = entry.substring_char(i + 1, n);
            return Some((String::from_str(key), String::from_str(val)));
        }
        i = i + 1;
    }
    None
}

/// The overrides that a list of entries amounts to: each key mapped to the
/// value of its last entry. Entries without `=` add nothing.
pub open spec fn env_map(entries: Seq<String>) -> Map<Seq<char>, Seq<char>>
    decreases entries.len(),
{
    if entries.len() == 0 {
        Map::empty()
    } else {
        let m = env_map(entries.drop_last());
        match env_pair(entries.last()@) {
            Some(p) => m.insert(p.0, p.1),
            None => m,
        }
    }
}

/// No key occurs twice among the pairs.
pub open spec fn keys_unique(v: Seq<(String, String)>) -> bool {
    forall|i: int, j: int| 0 <= i < j < v.len() ==> (#[trigger] v[i]).0@ != (#[trigger] v[j]).0@
}

/// The pairs hold exactly the entries of `m`, each key once.
pub open spec fn pairs_represent(v: Seq<(String, String)>, m: Map<Seq<char>, Seq<char>>) -> bool {
    &&& keys_unique(v)
    &&& forall|k: int| 0 <= k < v.len() ==> m.contains_key((#[trigger] v[k]).0@) && m[v[k].0@] == v[k].1@
    &&& forall|key: Seq<char>| #[trigger] m.contains_key(key) ==> exists|k: int| 0 <= k < v.len() && (#[trigger] v[k]).0@ == key
}

impl Program {
    /// The environment overrides as key/value pairs, one per key, each with
    /// the value of that key's last entry; keys stand in the order of their
    /// first entry. Fails on the first entry that holds no `=`.
    pub fn envs(&self) -> (r: Result<Vec<(String, String)>, EnvError>)
        ensures
            match r {
                Ok(v) => pairs_represent(v@, env_map(self.environment@)),
                Err(EnvError::MissingSeparator { index }) => {
                    &&& index < self.environment@.len()
                    &&& env_pair(self.environment@[index as int]@) is None
                    &&& forall|k: int| 0 <= k < index ==> env_pair(#[trigger] self.environment@[k]@) is Some
                },
            },
            r is Ok <==> forall|k: int|
                0 <= k < self.environment@.len() ==> env_pair(#[trigger] self.environment@[k]@) is Some,
    {
        let mut out: Vec<(String, String)> = Vec::new();
        let mut k: usize = 0;
        assert(pairs_represent(out@, env_map(self.environment@.subrange(0, 0))));
        while k < self.environment.len()
            invariant
                0 <= k <= self.environment@.len(),
                forall|j: int| 0 <= j < k ==> env_pair(#[trigger] self.environment@[j]@) is Some,
                pairs_represent(out@, env_map(self.environment@.subrange(0, k as int))),
            decreases self.environment@.len() - k,
        {
            let ghost pre = self.environment@.subrange(0, k as int);
            let ghost m = env_map(pre);
            assert(self.environment@.subrange(0, k + 1).drop_last() =~= pre);
            assert(self.environment@.subrange(0, k + 1).last() == self.environment@[k as int]);
            match split_env_entry(self.environment[k].as_str()) {
                Some(p) => {
                    let ghost m2 = m.insert(p.0@, p.1@);
                    assert(env_map(self.environment@.subrange(0, k + 1)) == m2);
                    let mut j: usize = 0;
                    let mut found = false;
                    while !found && j < out.len()
                        invariant
                            0 <= j <= out@.len(),
                            found ==> j < out@.len() && out@[j as int].0@ == p.0@,
                            forall|l: int| 0 <= l < j ==> (#[trigger] out@[l]).0@ != p.0@,
                        decreases out@.len() - j + (if found { 0int } else { 1int }),
                    {
                        if out[j].0 == p.0 {
                            found = true;
                        } else {
                            j = j + 1;
                        }
                    }
                    let ghost old_out = out@;
                    if found {
                        out.set(j, p);
                        assert(out@ == old_out.update(j as int, p));
                        assert(keys_unique(out@)) by {
                            assert forall|a: int, b: int| 0 <= a < b < out@.len() implies (#[trigger] out@[a]).0@
                                != (#[trigger] out@[b]).0@ by {
                                assert(old_out[a].0@ != old_out[b].0@);
                            }
                        }
                        assert forall|k2: int| 0 <= k2 < out@.len() implies m2.contains_key((#[trigger] out@[k2]).0@)
                            && m2[out@[k2].0@] == out@[k2].1@ by {
                            if k2 != j {
                                assert(old_out[k2].0@ != old_out[j as int].0@);
                            }
                        }
                        assert forall|key: Seq<char>| #[trigger] m2.contains_key(key) implies exists|k2: int|
                            0 <= k2 < out@.len() && (#[trigger] out@[k2]).0@ == key by {
                            if key != p.0@ {
                                let w = choose|k2: int| 0 <= k2 < old_out.len() && (#[trigger] old_out[k2]).0@ == key;
                                assert(out@[w].0@ == key);
                            } else {
                                assert(out@[j as int].0@ == key);
                            }
                        }
                    } else {
                        out.push(p);
                        assert(out@ == old_out.push(p));
                        assert(keys_unique(out@)) by {
                            assert forall|a: int, b: int| 0 <= a < b < out@.len() implies (#[trigger] out@[a]).0@
                                != (#[trigger] out@[b]).0@ by {
                                if b < old_out.len() {
                                    assert(old_out[a].0@ != old_out[b].0@);
                                } else {
                                    assert(old_out[a].0@ != p.0@);
                                }
                            }
                        }
                        assert forall|k2: int| 0 <= k2 < out@.len() implies m2.contains_key((#[trigger] out@[k2]).0@)
                            && m2[out@[k2].0@] == out@[k2].1@ by {
                            if k2 < old_out.len() {
                                assert(old_out[k2].0@ != p.0@);
                            }
                        }
                        assert forall|key: Seq<char>| #[trigger] m2.contains_key(key) implies exists|k2: int|
                            0 <= k2 < out@.len() && (#[trigger] out@[k2]).0@ == key by {
                            if key != p.0@ {
                                let w = choose|k2: int| 0 <= k2 < old_out.len() && (#[trigger] old_out[k2]).0@ == key;
                                assert(out@[w].0@ == key);
                            } else {
                                assert(out@[old_out.len() as int].0@ == key);
                            }
                        }
                    }
                },
                None => {
                    return Err(EnvError::MissingSeparator { index: k });
                },
            }
            k = k + 1;
        }
        assert(self.environment@.subrange(0, k as int) =~= self.environment@);
        Ok(out)
    }
}

} // verus!
