//! The manager's configuration and the directories derived from the data root.

use vstd::prelude::*;
use vstd::string::StringExecFns;
use crate::actions::{build_forward_script, forward_script};
use crate::paths::{join_path, path_join};
use crate::text::{equal_text, list_contains, opt_text, strs, trim, trimmed};

verus! {

/// The manager's configuration, kept as `config.json` in the manager's own directory.
pub struct Config {
    /// The data root; none or blank means the manager's own directory.
    pub root_dir: Option<String>,
    /// The default version, the one the terminal `dsh` command runs.
    pub default_version: Option<String>,
    /// The versions with isolated data: each has its own `DSH_HOME`.
    pub isolated_versions: Vec<String>,
}

/// `texts` without any occurrence of `v`, the others in order.
pub open spec fn without(texts: Seq<Seq<char>>, v: Seq<char>) -> Seq<Seq<char>>
    decreases texts.len(),
{
    if texts.len() == 0 {
        texts
    } else if texts.last() == v {
        without(texts.drop_last(), v)
    } else {
        without(texts.drop_last(), v).push(texts.last())
    }
}

/// Removing `v` leaves no `v` and keeps every other member.
pub proof fn lemma_without(texts: Seq<Seq<char>>, v: Seq<char>)
    ensures
        !without(texts, v).contains(v),
        forall|t: Seq<char>| t != v ==> (without(texts, v).contains(t) <==> texts.contains(t)),
    decreases texts.len(),
{
    if texts.len() > 0 {
        lemma_without(texts.drop_last(), v);
        assert(texts =~= texts.drop_last().push(texts.last()));
        let init = texts.drop_last();
        let w0 = without(init, v);
        assert forall|t: Seq<char>| t != v implies (without(texts, v).contains(t)
            <==> texts.contains(t)) by {
            assert(texts.contains(t) <==> (init.contains(t) || texts.last() == t)) by {
                if texts.contains(t) {
                    let k = choose|k: int| 0 <= k < texts.len() && texts[k] == t;
                    if k < texts.len() - 1 {
                        assert(init[k] == t);
                    }
                }
                if init.contains(t) {
                    let k = choose|k: int| 0 <= k < init.len() && init[k] == t;
                    assert(texts[k] == t);
                }
                if texts.last() == t {
                    assert(texts[texts.len() - 1] == t);
                }
            }
            if texts.last() != v {
                assert(without(texts, v) == w0.push(texts.last()));
                assert(w0.push(texts.last()).contains(t) <==> (w0.contains(t) || texts.last()
                    == t)) by {
                    if w0.push(texts.last()).contains(t) {
                        let k = choose|k: int|
                            0 <= k < w0.len() + 1 && w0.push(texts.last())[k] == t;
                        if k < w0.len() {
                            assert(w0[k] == t);
                        }
                    }
                    if w0.contains(t) {
                        let k = choose|k: int| 0 <= k < w0.len() && w0[k] == t;
                        assert(w0.push(texts.last())[k] == t);
                    }
                    if texts.last() == t {
                        assert(w0.push(texts.last())[w0.len() as int] == t);
                    }
                }
            }
        }
        if without(texts, v).contains(v) && texts.last() != v {
            let k = choose|k: int| 0 <= k < without(texts, v).len() && without(texts, v)[k] == v;
            assert(without(texts.drop_last(), v)[k] == v);
        }
    }
}

/// `texts` without `v`.
fn without_exec(list: &Vec<String>, v: &str) -> (r: Vec<String>)
    ensures
        strs(r@) == without(strs(list@), v@),
{
    let mut out: Vec<String> = Vec::new();
    let mut i: usize = 0;
    while i < list.len()
        invariant
            i <= list.len(),
            strs(out@) == without(strs(list@).take(i as int), v@),
        decreases list.len() - i,
    {
        assert(strs(list@).take(i + 1).drop_last() =~= strs(list@).take(i as int));
        assert(strs(list@).take(i + 1).last() == list@[i as int]@);
        if !crate::text::equal_text(list[i].as_str(), v) {
            let ghost before = out@;
            out.push(list[i].clone());
            assert(strs(out@) =~= strs(before).push(list@[i as int]@));
        }
        i += 1;
    }
    assert(strs(list@).take(list.len() as int) =~= strs(list@));
    out
}

impl Config {
    /// The name of the configuration file.
    pub const FILE_NAME: &'static str = "config.json";

    /// The texts of the isolated versions.
    pub open spec fn isolated(&self) -> Seq<Seq<char>> {
        strs(self.isolated_versions@)
    }

    /// The data root that `manager_dir` and this configuration give.
    pub open spec fn root_for(&self, manager_dir: Seq<char>) -> Seq<char> {
        match self.root_dir {
            Some(r) => if trim(r@).len() > 0 {
                r@
            } else {
                manager_dir
            },
            None => manager_dir,
        }
    }

    /// The data root: the configured one unless it is missing or blank, else the
    /// manager's own directory.
    pub fn resolve_root(&self, manager_dir: &str) -> (r: String)
        ensures
            r@ == self.root_for(manager_dir@),
    {
        match &self.root_dir {
            Some(r) => {
                let t = trimmed(r.as_str());
                if !t.as_str().is_empty() {
                    return r.clone();
                }
                String::from_str(manager_dir)
            },
            None => String::from_str(manager_dir),
        }
    }

    /// Whether `version` has isolated data.
    pub fn is_isolated(&self, version: &str) -> (b: bool)
        ensures
            b == self.isolated().contains(version@),
    {
        list_contains(&self.isolated_versions, version)
    }

    /// Forgets an uninstalled `version`: it stops being the default and stops being
    /// isolated. Returns whether the configuration changed (and so must be saved).
    pub fn forget_version(&mut self, version: &str) -> (changed: bool)
        ensures
            final(self).root_dir == old(self).root_dir,
            opt_text(final(self).default_version) == (if opt_text(old(self).default_version)
                == Some(version@) {
                None
            } else {
                opt_text(old(self).default_version)
            }),
            final(self).isolated() == without(old(self).isolated(), version@),
            changed == (opt_text(old(self).default_version) == Some(version@)
                || old(self).isolated().contains(version@)),
    {
        let mut changed = false;
        let is_default = match &self.default_version {
            Some(d) => crate::text::equal_text(d.as_str(), version),
            None => false,
        };
        if is_default {
            self.default_version = None;
            changed = true;
        }
        if list_contains(&self.isolated_versions, version) {
            self.isolated_versions = without_exec(&self.isolated_versions, version);
            changed = true;
        } else {
            proof {
                lemma_without_absent(old(self).isolated(), version@);
            }
        }
        changed
    }

    /// Turns data isolation of `version` on or off; the version is listed once at most,
    /// and last when it is turned on.
    pub fn set_isolation(&mut self, version: &str, isolated: bool)
        ensures
            final(self).root_dir == old(self).root_dir,
            final(self).default_version == old(self).default_version,
            final(self).isolated() == (if isolated {
                without(old(self).isolated(), version@).push(version@)
            } else {
                without(old(self).isolated(), version@)
            }),
    {
        let mut kept = without_exec(&self.isolated_versions, version);
        if isolated {
            let ghost before = kept@;
            kept.push(String::from_str(version));
            assert(strs(kept@) =~= strs(before).push(version@));
        }
        self.isolated_versions = kept;
    }

    /// The forward script this configuration calls for: one for the default version,
    /// or none (the script is removed) when there is no default version.
    pub fn forward_script(&self, manager_dir: &str) -> (r: Option<String>)
        ensures
            self.default_version is None ==> r is None,
            self.default_version matches Some(v) ==> r matches Some(s) && s@ == forward_script(
                v@,
                self.root_for(manager_dir@),
                self.isolated().contains(v@),
            ),
    {
        match &self.default_version {
            Some(v) => {
                let isolated = self.is_isolated(v.as_str());
                let root = self.resolve_root(manager_dir);
                Some(build_forward_script(v.as_str(), root.as_str(), isolated))
            },
            None => None,
        }
    }

    /// The `DSH_HOME` that `version` runs with: its own `home` under its version directory
    /// when isolated, else the shared `home`.
    pub fn home_for(&self, dirs: &Dirs, version: &str) -> (r: String)
        ensures
            r@ == (if self.isolated().contains(version@) {
                path_join(path_join(dirs.versions@, version@), "home"@)
            } else {
                dirs.home@
            }),
    {
        if self.is_isolated(version) {
            let vdir = join_path(dirs.versions.as_str(), version);
            join_path(vdir.as_str(), "home")
        } else {
            dirs.home.clone()
        }
    }
}

/// Removing an absent text changes nothing.
pub proof fn lemma_without_absent(texts: Seq<Seq<char>>, v: Seq<char>)
    requires
        !texts.contains(v),
    ensures
        without(texts, v) == texts,
    decreases texts.len(),
{
    if texts.len() > 0 {
        assert(!texts.drop_last().contains(v)) by {
            if texts.drop_last().contains(v) {
                let k = choose|k: int| 0 <= k < texts.drop_last().len() && texts.drop_last()[k] == v;
                assert(texts[k] == v);
            }
        }
        lemma_without_absent(texts.drop_last(), v);
        assert(texts.last() != v);
        assert(texts.drop_last().push(texts.last()) =~= texts);
    }
}

impl Default for Config {
    fn default() -> (c: Self)
        ensures
            c.root_dir is None,
            c.default_version is None,
            c.isolated_versions@.len() == 0,
    {
        Config { root_dir: None, default_version: None, isolated_versions: Vec::new() }
    }
}

/// The directories derived from the data root.
pub struct Dirs {
    /// The data root.
    pub root: String,
    /// Where each version is installed, one directory per version.
    pub versions: String,
    /// The shared `DSH_HOME`.
    pub home: String,
    /// The package store shared by all versions.
    pub store: String,
}

impl Dirs {
    /// The directories under `root`: `versions`, `home` and `store`.
    pub fn new(root: String) -> (d: Self)
        ensures
            d.root@ == root@,
            d.versions@ == path_join(root@, "versions"@),
            d.home@ == path_join(root@, "home"@),
            d.store@ == path_join(root@, "store"@),
    {
        let versions = join_path(root.as_str(), "versions");
        let home = join_path(root.as_str(), "home");
        let store = join_path(root.as_str(), "store");
        Dirs { root, versions, home, store }
    }

    /// pnpm's cache directory, `cache` under the root.
    pub fn cache(&self) -> (r: String)
        ensures
            r@ == path_join(self.root@, "cache"@),
    {
        join_path(self.root.as_str(), "cache")
    }

    /// pnpm's state directory, `state` under the root.
    pub fn state(&self) -> (r: String)
        ensures
            r@ == path_join(self.root@, "state"@),
    {
        join_path(self.root.as_str(), "state")
    }

    /// The directory a name picks: `versions`, `home`, `store`, `cache` or `state`; the
    /// root for any other name.
    pub fn named(&self, which: &str) -> (r: String)
        ensures
            r@ == (if which@ == "versions"@ {
                self.versions@
            } else if which@ == "home"@ {
                self.home@
            } else if which@ == "store"@ {
                self.store@
            } else if which@ == "cache"@ {
                path_join(self.root@, "cache"@)
            } else if which@ == "state"@ {
                path_join(self.root@, "state"@)
            } else {
                self.root@
            }),
    {
        if equal_text(which, "versions") {
            self.versions.clone()
        } else if equal_text(which, "home") {
            self.home.clone()
        } else if equal_text(which, "store") {
            self.store.clone()
        } else if equal_text(which, "cache") {
            self.cache()
        } else if equal_text(which, "state") {
            self.state()
        } else {
            self.root.clone()
        }
    }
}

/// Without `v` twice is without it once.
proof fn lemma_without_twice(texts: Seq<Seq<char>>, v: Seq<char>)
    ensures
        without(without(texts, v), v) == without(texts, v),
{
    lemma_without(texts, v);
    lemma_without_absent(without(texts, v), v);
}

/// After turning isolation of `version` on or off, the version is isolated exactly when
/// it was turned on, and every other version keeps its state.
pub proof fn law_isolation_set(isolated: Seq<Seq<char>>, version: Seq<char>, on: bool)
    ensures
        ({
            let after = if on {
                without(isolated, version).push(version)
            } else {
                without(isolated, version)
            };
            &&& after.contains(version) == on
            &&& forall|t: Seq<char>| t != version ==> (after.contains(t) <==> isolated.contains(t))
        }),
{
    lemma_without(isolated, version);
    let w = without(isolated, version);
    if on {
        assert(w.push(version)[w.len() as int] == version);
        assert forall|t: Seq<char>| t != version implies (w.push(version).contains(t) <==> w.contains(t)) by {
            if w.push(version).contains(t) {
                let k = choose|k: int| 0 <= k < w.len() + 1 && w.push(version)[k] == t;
                assert(w[k] == t);
            }
            if w.contains(t) {
                let k = choose|k: int| 0 <= k < w.len() && w[k] == t;
                assert(w.push(version)[k] == t);
            }
        }
    }
}

/// Turning isolation on or off twice in the same way is the same as doing it once.
pub proof fn law_isolation_idempotent(isolated: Seq<Seq<char>>, version: Seq<char>, on: bool)
    ensures
        ({
            let once = if on {
                without(isolated, version).push(version)
            } else {
                without(isolated, version)
            };
            let twice = if on {
                without(once, version).push(version)
            } else {
                without(once, version)
            };
            twice == once
        }),
{
    lemma_without_twice(isolated, version);
    if on {
        let w = without(isolated, version);
        assert(w.push(version).drop_last() =~= w);
        assert(without(w.push(version), version) == without(w, version));
    }
}

/// After a version is forgotten it is neither the default nor isolated, and every other
/// version keeps its isolation.
pub proof fn law_forgotten_version(default_version: Option<Seq<char>>, isolated: Seq<Seq<char>>, version: Seq<char>)
    ensures
        (if default_version == Some(version) {
            None
        } else {
            default_version
        }) != Some(version),
        !without(isolated, version).contains(version),
        forall|t: Seq<char>| t != version ==> (without(isolated, version).contains(t) <==> isolated.contains(t)),
{
    lemma_without(isolated, version);
}

/// `without` keeps a list free of repeats.
proof fn lemma_without_no_duplicates(texts: Seq<Seq<char>>, v: Seq<char>)
    requires
        texts.no_duplicates(),
    ensures
        without(texts, v).no_duplicates(),
    decreases texts.len(),
{
    if texts.len() > 0 {
        let d = texts.drop_last();
        assert(d.no_duplicates()) by {
            assert forall|i: int, j: int| 0 <= i < d.len() && 0 <= j < d.len() && i != j implies d[i] != d[j] by {
                assert(d[i] == texts[i] && d[j] == texts[j]);
            }
        }
        lemma_without_no_duplicates(d, v);
        lemma_without(d, v);
        let l = texts.last();
        if l != v {
            let w = without(d, v);
            assert(!d.contains(l)) by {
                if d.contains(l) {
                    let k = choose|k: int| 0 <= k < d.len() && d[k] == l;
                    assert(texts[k] == texts[texts.len() - 1]);
                }
            }
            assert(!w.contains(l));
            assert forall|i: int, j: int| 0 <= i < w.push(l).len() && 0 <= j < w.push(l).len() && i != j implies w.push(l)[i] != w.push(l)[j] by {
                if i < w.len() && j < w.len() {
                    assert(w.push(l)[i] == w[i] && w.push(l)[j] == w[j]);
                } else if i < w.len() {
                    assert(w.push(l)[i] == w[i]);
                } else {
                    assert(w.push(l)[j] == w[j]);
                }
            }
        }
    }
}

/// Turning isolation on or off, and forgetting a version, keep the isolated list free of
/// repeats.
pub proof fn law_isolated_list_without_repeats(isolated: Seq<Seq<char>>, version: Seq<char>)
    requires
        isolated.no_duplicates(),
    ensures
        without(isolated, version).no_duplicates(),
        without(isolated, version).push(version).no_duplicates(),
{
    lemma_without_no_duplicates(isolated, version);
    lemma_without(isolated, version);
    let w = without(isolated, version);
    assert forall|i: int, j: int| 0 <= i < w.push(version).len() && 0 <= j < w.push(version).len() && i != j implies w.push(version)[i] != w.push(version)[j] by {
        if i < w.len() && j < w.len() {
            assert(w.push(version)[i] == w[i] && w.push(version)[j] == w[j]);
        } else if i < w.len() {
            assert(w.push(version)[i] == w[i]);
        } else {
            assert(w.push(version)[j] == w[j]);
        }
    }
}

/// After isolation of the default version is turned on or off, the forward script that
/// the configuration calls for offers that version's own home exactly when it was turned
/// on, and the shared home otherwise.
pub proof fn law_script_follows_isolation(
    isolated: Seq<Seq<char>>,
    version: Seq<char>,
    on: bool,
    root: Seq<char>,
)
    ensures
        forward_script(
            version,
            root,
            (if on {
                without(isolated, version).push(version)
            } else {
                without(isolated, version)
            }).contains(version),
        ) == forward_script(version, root, on),
{
    law_isolation_set(isolated, version, on);
}

} // verus!

