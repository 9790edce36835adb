//! The installed-version registry: the set of versions the launcher has on
//! disk, deduplicated, queried before any download is dispatched, and listed
//! most recent first for display.

use vstd::prelude::*;
use crate::resolver::Platform;
use crate::resolver::install_filename;
use crate::resolver::install_name_spec;
use crate::version::ParseError;
use crate::version::Version;
use crate::version::parse_spec;
use crate::version::version_lt;
use crate::version::lemma_version_order_connected;
use crate::version::lemma_version_order_transitive;

verus! {

/// Why a version cannot be run.
#[derive(Debug, Clone, Copy, PartialEq, Eq, Structural)]
pub enum LaunchError {
    /// The version is not in the installed set.
    NotInstalled,
    /// The platform's shared library is missing.
    DependencyMissing,
}

/// Installed versions, each held once. Its view is the sequence of entries
/// in insertion order.
pub struct VersionRegistry {
    items: Vec<Version>,
}

impl View for VersionRegistry {
    type V = Seq<Version>;

    closed spec fn view(&self) -> Seq<Version> {
        self.items@
    }
}

/// No version appears twice.
pub open spec fn no_duplicates(s: Seq<Version>) -> bool {
    forall|i: int, j: int| 0 <= i < j < s.len() ==> s[i] != s[j]
}

/// Sorted most recent first: no later entry is strictly newer.
pub open spec fn sorted_descending(s: Seq<Version>) -> bool {
    forall|i: int, j: int| 0 <= i < j < s.len() ==> !version_lt(s[i], s[j])
}

impl VersionRegistry {
    /// The registry invariant: entries are unique.
    pub open spec fn wf(&self) -> bool {
        no_duplicates(self@)
    }

    /// An empty registry.
    pub fn new() -> (r: Self)
        ensures
            r@ == Seq::<Version>::empty(),
            r.wf(),
    {
        VersionRegistry { items: Vec::new() }
    }

    /// How many versions are installed.
    pub fn len(&self) -> (r: usize)
        ensures
            r == self@.len(),
    {
        self.items.len()
    }

    /// The version at an index, for enumeration.
    pub fn get(&self, i: usize) -> (r: Version)
        requires
            i < self@.len(),
        ensures
            r == self@[i as int],
    {
        self.items[i]
    }

    /// Whether a version is installed.
    pub fn contains(&self, v: &Version) -> (r: bool)
        ensures
            r == self@.contains(*v),
    {
        let mut i: usize = 0;
        while i < self.items.len()
            invariant
                i <= self@.len(),
                forall|k: int| 0 <= k < i ==> self@[k] != *v,
            decreases self@.len() - i,
        {
            if self.items[i] == *v {
                return true;
            }
            i = i + 1;
        }
        false
    }

    /// Dedup policy at the dispatch boundary: a download is started exactly
    /// for versions not already installed, so a request for an installed
    /// version never reaches the engine.
    pub fn should_download(&self, v: &Version) -> (r: bool)
        ensures
            r == !self@.contains(*v),
    {
        !self.contains(v)
    }

    /// Records a version, keeping entries unique: installing what is already
    /// installed changes nothing.
    pub fn insert(&mut self, v: Version) -> (added: bool)
        requires
            old(self).wf(),
        ensures
            final(self).wf(),
            added == !old(self)@.contains(v),
            final(self)@ == if old(self)@.contains(v) {
                old(self)@
            } else {
                old(self)@.push(v)
            },
    {
        if self.contains(&v) {
            false
        } else {
            self.items.push(v);
            true
        }
    }

    /// Rebuilds the registry from persisted version strings: exactly the
    /// strings that parse are kept, each resulting version once.
    pub fn from_strings(names: &Vec<String>) -> (r: Self)
        ensures
            r.wf(),
            forall|v: Version|
                #[trigger] r@.contains(v) <==> exists|i: int|
                    0 <= i < names@.len() && parse_spec(#[trigger] names@[i]@) == Ok::<
                        Version,
                        ParseError,
                    >(v),
    {
        let mut reg = VersionRegistry::new();
        let mut i: usize = 0;
        while i < names.len()
            invariant
                i <= names@.len(),
                reg.wf(),
                forall|v: Version|
                    #[trigger] reg@.contains(v) <==> exists|k: int|
                        0 <= k < i && parse_spec(#[trigger] names@[k]@) == Ok::<
                            Version,
                            ParseError,
                        >(v),
            decreases names@.len() - i,
        {
            let ghost pre = reg@;
            match Version::parse(names[i].as_str()) {
                Ok(v) => {
                    reg.insert(v);
                    proof {
                        assert forall|w: Version| #[trigger]
                            reg@.contains(w) implies exists|k: int|
                            0 <= k < i + 1 && parse_spec(#[trigger] names@[k]@) == Ok::<
                                Version,
                                ParseError,
                            >(w) by {
                            if w == v {
                                assert(parse_spec(names@[i as int]@) == Ok::<Version, ParseError>(
                                    w,
                                ));
                            } else {
                                assert(pre.contains(w));
                            }
                        }
                        assert forall|w: Version|
                            (exists|k: int|
                                0 <= k < i + 1 && parse_spec(#[trigger] names@[k]@) == Ok::<
                                    Version,
                                    ParseError,
                                >(w)) implies #[trigger] reg@.contains(w) by {
                            let k = choose|k: int|
                                0 <= k < i + 1 && parse_spec(#[trigger] names@[k]@) == Ok::<
                                    Version,
                                    ParseError,
                                >(w);
                            if k < i {
                                assert(pre.contains(w));
                                let idx = choose|idx: int|
                                    0 <= idx < pre.len() && pre[idx] == w;
                                if !pre.contains(v) {
                                    assert(reg@ == pre.push(v));
                                }
                                assert(reg@[idx] == w);
                            } else {
                                assert(w == v);
                                if !pre.contains(v) {
                                    assert(reg@ == pre.push(v));
                                    assert(reg@[reg@.len() - 1] == v);
                                }
                            }
                        }
                    }
                },
                Err(_) => {
                    proof {
                        assert forall|w: Version| #[trigger]
                            reg@.contains(w) implies exists|k: int|
                            0 <= k < i + 1 && parse_spec(#[trigger] names@[k]@) == Ok::<
                                Version,
                                ParseError,
                            >(w) by {
                            let k = choose|k: int|
                                0 <= k < i && parse_spec(#[trigger] names@[k]@) == Ok::<
                                    Version,
                                    ParseError,
                                >(w);
                            assert(0 <= k < i + 1 && parse_spec(names@[k]@) == Ok::<
                                Version,
                                ParseError,
                            >(w));
                        }
                    }
                },
            }
            i = i + 1;
        }
        reg
    }

    /// The launch gate: a version may be run exactly when it is installed
    /// and the platform's shared library is in place (the shell reports
    /// that). On success the installed binary's filename comes back.
    pub fn can_launch(&self, v: &Version, p: Platform, dependency_present: bool) -> (r: Result<
        String,
        LaunchError,
    >)
        ensures
            match r {
                Ok(name) => self@.contains(*v) && dependency_present && name@ == install_name_spec(
                    *v,
                    p,
                ),
                Err(e) => (e == LaunchError::NotInstalled && !self@.contains(*v)) || (e
                    == LaunchError::DependencyMissing && self@.contains(*v)
                    && !dependency_present),
            },
    {
        if !self.contains(v) {
            Err(LaunchError::NotInstalled)
        } else if !dependency_present {
            Err(LaunchError::DependencyMissing)
        } else {
            Ok(install_filename(v, p))
        }
    }

    /// The installed versions sorted most recent first, for display: the same
    /// versions, in descending order.
    pub fn sorted_desc(&self) -> (r: Vec<Version>)
        ensures
            r@.to_multiset() == self@.to_multiset(),
            sorted_descending(r@),
    {
        let mut out: Vec<Version> = Vec::new();
        let mut i: usize = 0;
        proof {
            broadcast use vstd::seq_lib::group_to_multiset_ensures;

            assert(self@.take(0) =~= Seq::<Version>::empty());
            assert(out@.to_multiset() =~= self@.take(0).to_multiset());
        }
        while i < self.items.len()
            invariant
                i <= self@.len(),
                out@.to_multiset() == self@.take(i as int).to_multiset(),
                sorted_descending(out@),
            decreases self@.len() - i,
        {
            broadcast use vstd::seq_lib::group_to_multiset_ensures;

            let x = self.items[i];
            let ghost before = out@;
            let mut p: usize = 0;
            while p < out.len() && !out[p].precedes(&x)
                invariant
                    p <= out@.len(),
                    out@ == before,
                    forall|k: int| 0 <= k < p ==> !version_lt(before[k], x),
                decreases out@.len() - p,
            {
                p = p + 1;
            }
            out.insert(p, x);
            proof {
                let after = out@;
                assert(after == before.insert(p as int, x));
                // The new entry keeps the order: everything before it is not
                // older, everything after it is strictly older.
                assert forall|a: int, b: int|
                    0 <= a < b < after.len() implies !version_lt(after[a], after[b]) by {
                    if a < p && b == p {
                        assert(after[a] == before[a]);
                    } else if a == p && b > p {
                        assert(after[b] == before[b - 1]);
                        assert(version_lt(before[p as int], x));
                        lemma_version_order_connected(x, before[b - 1]);
                        if version_lt(x, before[b - 1]) {
                            lemma_version_order_transitive(
                                before[p as int],
                                x,
                                before[b - 1],
                            );
                        }
                    } else if a < p && b > p {
                        assert(after[a] == before[a]);
                        assert(after[b] == before[b - 1]);
                    } else if a < p && b < p {
                        assert(after[a] == before[a]);
                        assert(after[b] == before[b]);
                    } else if a > p && b > p {
                        assert(after[a] == before[a - 1]);
                        assert(after[b] == before[b - 1]);
                    }
                }
                // Inserting anywhere adds exactly one copy to the contents.
                assert(after.remove(p as int) =~= before);
                assert(after.remove(p as int).to_multiset() =~= after.to_multiset().remove(x));
                assert(after.to_multiset().contains(x));
                assert(after.to_multiset() =~= before.to_multiset().insert(x));
                assert(self@.take(i + 1) =~= self@.take(i as int).push(x));
            }
            i = i + 1;
        }
        proof {
            assert(self@.take(i as int) =~= self@);
        }
        out
    }
}

} // verus!
