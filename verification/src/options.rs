//! Configuration options for a tool version: a global key-value layer and a
//! per-platform override layer, each modelled as a lookup keyed by the
//! characters of the key.

use vstd::prelude::*;
use crate::text::str_eq;

verus! {

/// First-match lookup in an association list.
pub open spec fn lookup_pairs<V>(pairs: Seq<(String, V)>, k: Seq<char>) -> Option<V>
    decreases pairs.len(),
{
    if pairs.len() == 0 {
        None
    } else if pairs[0].0@ == k {
        Some(pairs[0].1)
    } else {
        lookup_pairs(pairs.skip(1), k)
    }
}

/// A map from strings to values; a later `insert` for a key shadows an
/// earlier one.
pub struct StrMap<V> {
    pairs: Vec<(String, V)>,
}

impl<V> StrMap<V> {
    /// The value stored under the characters `k`, if any.
    pub closed spec fn spec_get(&self, k: Seq<char>) -> Option<V> {
        lookup_pairs(self.pairs@, k)
    }

    /// An empty map.
    pub fn new() -> (r: Self)
        ensures
            forall|k: Seq<char>| r.spec_get(k) is None,
    {
        StrMap { pairs: Vec::new() }
    }

    /// Stores `v` under `k`, shadowing any earlier value for `k` and leaving
    /// every other key unchanged.
    pub fn insert(&mut self, k: String, v: V)
        ensures
            final(self).spec_get(k@) == Some(v),
            forall|k2: Seq<char>|
                k2 != k@ ==> final(self).spec_get(k2) == old(self).spec_get(k2),
    {
        let ghost old_pairs = self.pairs@;
        let ghost gk = k@;
        let ghost gv = v;
        self.pairs.insert(0, (k, v));
        proof {
            assert(self.pairs@.skip(1) =~= old_pairs);
            assert(self.pairs@[0].0@ == gk && self.pairs@[0].1 == gv);
        }
    }

    /// Looks the characters of `k` up in the map.
    pub fn get(&self, k: &str) -> (r: Option<&V>)
        ensures
            match r {
                Some(v) => self.spec_get(k@) == Some(*v),
                None => self.spec_get(k@) is None,
            },
    {
        let n = self.pairs.len();
        let mut i: usize = 0;
        proof {
            assert(self.pairs@.skip(0) =~= self.pairs@);
        }
        while i < n
            invariant
                i <= n,
                n == self.pairs@.len(),
                lookup_pairs(self.pairs@, k@) == lookup_pairs(self.pairs@.skip(i as int), k@),
            decreases n - i,
        {
            proof {
                assert(self.pairs@.skip(i as int)[0] == self.pairs@[i as int]);
                assert(self.pairs@.skip(i as int).skip(1) =~= self.pairs@.skip(i as int + 1));
            }
            if str_eq(self.pairs[i].0.as_str(), k) {
                return Some(&self.pairs[i].1);
            }
            i = i + 1;
        }
        proof {
            assert(self.pairs@.skip(i as int) =~= Seq::<(String, V)>::empty());
        }
        None
    }
}

impl<V> StrMap<V> {
    /// The value under `key` when one is stored — the `fresh` computation
    /// is then discarded and the map stays as it was — else `fresh`,
    /// stored under `key` from now on.
    pub fn get_or_insert(&mut self, key: &String, fresh: V) -> (r: &V)
        ensures
            final(self).spec_get(key@) == Some(*r),
            old(self).spec_get(key@) is Some ==> *final(self) == *old(self) && old(self).spec_get(
                key@,
            ) == Some(*r),
            old(self).spec_get(key@) is None ==> *r == fresh && (forall|k2: Seq<char>|
                k2 != key@ ==> final(self).spec_get(k2) == old(self).spec_get(k2)),
    {
        let n = self.pairs.len();
        let mut found: Option<usize> = None;
        let mut i: usize = 0;
        proof {
            assert(self.pairs@.skip(0) =~= self.pairs@);
        }
        while i < n
            invariant
                i <= n,
                n == self.pairs@.len(),
                match found {
                    None => lookup_pairs(self.pairs@, key@) == lookup_pairs(
                        self.pairs@.skip(i as int),
                        key@,
                    ),
                    Some(f) => f < n && self.pairs@[f as int].0@ == key@ && lookup_pairs(
                        self.pairs@,
                        key@,
                    ) == Some(self.pairs@[f as int].1),
                },
            decreases n - i,
        {
            let step = match found {
                None => {
                    proof {
                        assert(self.pairs@.skip(i as int)[0] == self.pairs@[i as int]);
                        assert(self.pairs@.skip(i as int).skip(1) =~= self.pairs@.skip(
                            i as int + 1,
                        ));
                    }
                    str_eq(self.pairs[i].0.as_str(), key.as_str())
                },
                Some(_) => false,
            };
            if step {
                found = Some(i);
            }
            i = i + 1;
        }
        match found {
            Some(f) => &self.pairs[f].1,
            None => {
                proof {
                    assert(self.pairs@.skip(n as int) =~= Seq::<(String, V)>::empty());
                }
                let ghost old_pairs = self.pairs@;
                self.pairs.insert(0, (key.clone(), fresh));
                proof {
                    assert(self.pairs@.skip(1) =~= old_pairs);
                }
                &self.pairs[0].1
            },
        }
    }
}

/// The option layers that govern one tool version: global options and the
/// override layer for the platform the install runs on.
pub struct ToolVersionOptions {
    /// Global options, such as `version_prefix` or `asset_pattern`.
    pub opts: StrMap<String>,
    /// Options the current platform overrides the global layer with.
    pub platform_opts: StrMap<String>,
}

impl ToolVersionOptions {
    /// The global value for `k`, if any.
    pub open spec fn spec_global(&self, k: Seq<char>) -> Option<String> {
        self.opts.spec_get(k)
    }

    /// The platform-layer value for `k`, if any.
    pub open spec fn spec_platform(&self, k: Seq<char>) -> Option<String> {
        self.platform_opts.spec_get(k)
    }

    /// The platform-layer value for `k`, falling back to the global layer.
    pub open spec fn spec_effective(&self, k: Seq<char>) -> Option<String> {
        match self.platform_opts.spec_get(k) {
            Some(v) => Some(v),
            None => self.opts.spec_get(k),
        }
    }

    /// Two empty layers.
    pub fn new() -> (r: Self)
        ensures
            forall|k: Seq<char>| r.spec_global(k) is None,
            forall|k: Seq<char>| r.spec_platform(k) is None,
    {
        ToolVersionOptions { opts: StrMap::new(), platform_opts: StrMap::new() }
    }

    /// The global value for `key`.
    pub fn get(&self, key: &str) -> (r: Option<&String>)
        ensures
            match r {
                Some(v) => self.spec_global(key@) == Some(*v),
                None => self.spec_global(key@) is None,
            },
    {
        self.opts.get(key)
    }

    /// The platform-layer value for `key`, without a global fallback.
    pub fn lookup_platform_key(&self, key: &str) -> (r: Option<&String>)
        ensures
            match r {
                Some(v) => self.spec_platform(key@) == Some(*v),
                None => self.spec_platform(key@) is None,
            },
    {
        self.platform_opts.get(key)
    }

    /// The platform-layer value for `key`, falling back to the global layer.
    pub fn platform_or_global(&self, key: &str) -> (r: Option<&String>)
        ensures
            match r {
                Some(v) => self.spec_effective(key@) == Some(*v),
                None => self.spec_effective(key@) is None,
            },
    {
        match self.platform_opts.get(key) {
            Some(v) => Some(v),
            None => self.opts.get(key),
        }
    }
}

impl Default for ToolVersionOptions {
    /// Two empty layers.
    fn default() -> (r: Self)
        ensures
            forall|k: Seq<char>| r.spec_global(k) is None,
            forall|k: Seq<char>| r.spec_platform(k) is None,
    {
        ToolVersionOptions::new()
    }
}

} // verus!
