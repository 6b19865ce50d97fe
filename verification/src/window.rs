//! The embedded dsh windows: their labels, the injected top bar, the command line of the
//! quick-launch mode, and the table of running dsh processes per window.

use vstd::prelude::*;
use vstd::string::StringExecFns;
use crate::text::{chars_of, equal_text, replace_char, replace_char_exec, string_of};

verus! {

/// A character allowed in a window label: ASCII letters and digits, `-`, `/`, `:`, `_`.
pub open spec fn label_char_ok(c: char) -> bool {
    ||| ('a' <= c && c <= 'z')
    ||| ('A' <= c && c <= 'Z')
    ||| ('0' <= c && c <= '9')
    ||| c == '-'
    ||| c == '/'
    ||| c == ':'
    ||| c == '_'
}

/// `c` kept if allowed in a label, else `_`.
pub open spec fn label_char(c: char) -> char {
    if label_char_ok(c) {
        c
    } else {
        '_'
    }
}

/// The label of a version's window: `dsh-` and the version with each character not allowed
/// in a label (such as `.`) turned into `_`.
pub open spec fn label_of(version: Seq<char>) -> Seq<char> {
    "dsh-"@ + version.map_values(|c: char| label_char(c))
}

/// The label of a version's window.
pub fn window_label(version: &str) -> (r: String)
    ensures
        r@ == label_of(version@),
{
    let v = chars_of(version);
    let mut out: Vec<char> = Vec::new();
    let mut i: usize = 0;
    while i < v.len()
        invariant
            i <= v.len(),
            v@ == version@,
            out@ == v@.take(i as int).map_values(|c: char| label_char(c)),
        decreases v.len() - i,
    {
        let c = v[i];
        let ok = ('a' <= c && c <= 'z') || ('A' <= c && c <= 'Z') || ('0' <= c && c <= '9') || c == '-'
            || c == '/' || c == ':' || c == '_';
        out.push(if ok { c } else { '_' });
        assert(out@ =~= v@.take(i + 1).map_values(|c: char| label_char(c)));
        i += 1;
    }
    assert(v@.take(v.len() as int) =~= v@);
    let mut r = String::from_str("dsh-");
    r.append(string_of(&out).as_str());
    r
}

/// A window label holds only allowed characters, starts with `dsh-`, and is four
/// characters longer than the version.
pub proof fn law_label_is_valid(version: Seq<char>)
    ensures
        label_of(version).len() == version.len() + 4,
        label_of(version).take(4) == "dsh-"@,
        forall|k: int| 0 <= k < label_of(version).len() ==> label_char_ok(#[trigger] label_of(version)[k]),
{
    reveal_strlit("dsh-");
    let m = version.map_values(|c: char| label_char(c));
    assert(label_of(version).take(4) =~= "dsh-"@);
    assert forall|k: int| 0 <= k < label_of(version).len() implies label_char_ok(#[trigger] label_of(version)[k]) by {
        if k >= 4 {
            assert(label_of(version)[k] == m[k - 4]);
        }
    }
}

/// The version that a command line asks to launch: the argument after the first
/// `--launch-version`, if there is one.
pub open spec fn launch_version_in(args: Seq<Seq<char>>) -> Option<Seq<char>> {
    if exists|i: int| 0 <= i < args.len() && args[i] == "--launch-version"@ {
        let i = choose|i: int|
            0 <= i < args.len() && args[i] == "--launch-version"@ && forall|j: int|
                0 <= j < i ==> args[j] != "--launch-version"@;
        if i + 1 < args.len() {
            Some(args[i + 1])
        } else {
            None
        }
    } else {
        None
    }
}

/// The version named after `--launch-version` on the command line.
pub fn parse_launch_version(args: &[String]) -> (r: Option<String>)
    ensures
        crate::text::opt_text(r) == launch_version_in(crate::text::strs(args@)),
{
    let ghost a = crate::text::strs(args@);
    let mut i: usize = 0;
    while i < args.len()
        invariant
            i <= args.len(),
            a == crate::text::strs(args@),
            forall|j: int| 0 <= j < i ==> a[j] != "--launch-version"@,
        decreases args.len() - i,
    {
        if equal_text(args[i].as_str(), "--launch-version") {
            assert(a[i as int] == "--launch-version"@);
            let ghost k = choose|k: int|
                0 <= k < a.len() && a[k] == "--launch-version"@ && forall|j: int|
                    0 <= j < k ==> a[j] != "--launch-version"@;
            assert(k == i) by {
                if k < i {
                } else if k > i {
                    assert(a[i as int] != "--launch-version"@);
                }
            }
            if i + 1 < args.len() {
                return Some(args[i + 1].clone());
            } else {
                return None;
            }
        }
        i += 1;
    }
    None
}

/// `s` escaped for a JavaScript single-quoted string: `\` doubled, then `'` escaped.
pub open spec fn js_escaped(s: Seq<char>) -> Seq<char> {
    replace_char(replace_char(s, '\\', "\\\\"@), '\'', "\\'"@)
}

/// The script injected into a dsh window: a fixed top bar showing the version and the
/// full address, with a restart button and a fold button.
pub open spec fn topbar_script(version: Seq<char>, url: Seq<char>) -> Seq<char> {
    "(function() {\n  if (window.__dshBarInjected) return;\n  window.__dshBarInjected = true;\n"@
        + "  var VER = '"@ + js_escaped(version) + "';\n"@
        + "  var URL = '"@ + js_escaped(url) + "';\n"@
        + "  function inject() {\n    if (!document.body) return setTimeout(inject, 50);\n    if (document.getElementById('__dsh_bar')) return;\n    var bar = document.createElement('div');\n    bar.id = '__dsh_bar';\n    bar.style.cssText = 'position:fixed;top:0;left:0;right:0;height:32px;z-index:2147483647;'\n      + 'background:#1f2328;color:#fff;font:12px/32px \"Segoe UI\",system-ui,sans-serif;'\n      + 'display:flex;align-items:center;gap:12px;padding:0 12px;box-shadow:0 1px 4px rgba(0,0,0,.3);';\n    var label = document.createElement('span');\n    label.textContent = 'DSH ' + VER;\n    label.style.cssText = 'font-weight:600;white-space:nowrap;';\n    var urlBox = document.createElement('input');\n    urlBox.type = 'text';\n    urlBox.value = URL;\n    urlBox.readOnly = true;\n    urlBox.title = '点击可选中，复制到浏览器打开';\n    urlBox.style.cssText = 'flex:1;min-width:120px;background:#2b2f36;color:#cfd8e3;border:1px solid #3a3f47;border-radius:4px;padding:2px 8px;font:12px/1.6 monospace;';\n    urlBox.onclick = function() { urlBox.select(); };\n    var btnRestart = document.createElement('button');\n    btnRestart.textContent = '重启';\n    btnRestart.style.cssText = 'cursor:pointer;background:#4f6ef7;color:#fff;border:0;border-radius:4px;padding:3px 10px;font-size:12px;white-space:nowrap;';\n    btnRestart.onclick = function() {\n      try {\n        var inv = window.__TAURI_INTERNALS__ && window.__TAURI_INTERNALS__.invoke;\n        if (inv) { inv('restart_version', { version: VER }).catch(function() { location.reload(); }); return; }\n      } catch (e) {}\n      location.reload();\n    };\n    var btnFold = document.createElement('button');\n    btnFold.textContent = '收起';\n    btnFold.style.cssText = 'cursor:pointer;background:transparent;color:#fff;border:1px solid #555;border-radius:4px;padding:3px 10px;font-size:12px;white-space:nowrap;';\n    var folded = false;\n    btnFold.onclick = function() {\n      folded = !folded;\n      bar.style.height = folded ? '18px' : '32px';\n      bar.style.lineHeight = folded ? '18px' : '32px';\n      label.style.display = folded ? 'none' : '';\n      urlBox.style.display = folded ? 'none' : '';\n      btnRestart.style.display = folded ? 'none' : '';\n      btnFold.textContent = folded ? '展开' : '收起';\n      var st = document.getElementById('__dsh_bar_style');\n      if (st) st.textContent = 'body{padding-top:' + (folded ? '18px' : '32px') + ' !important;}';\n    };\n    bar.appendChild(label);\n    bar.appendChild(urlBox);\n    bar.appendChild(btnRestart);\n    bar.appendChild(btnFold);\n    var style = document.createElement('style');\n    style.id = '__dsh_bar_style';\n    style.textContent = 'body{padding-top:32px !important;}';\n    document.head.appendChild(style);\n    document.body.appendChild(bar);\n  }\n  if (document.readyState === 'loading') document.addEventListener('DOMContentLoaded', inject);\n  else inject();\n})();\n"@
}

/// The top-bar script for a version's window at `url`.
pub fn build_topbar_script(version: &str, url: &str) -> (r: String)
    ensures
        r@ == topbar_script(version@, url@),
{
    let v1 = replace_char_exec(version, '\\', "\\\\");
    let ver = replace_char_exec(v1.as_str(), '\'', "\\'");
    let u1 = replace_char_exec(url, '\\', "\\\\");
    let url_js = replace_char_exec(u1.as_str(), '\'', "\\'");
    let mut s = String::from_str("(function() {\n  if (window.__dshBarInjected) return;\n  window.__dshBarInjected = true;\n");
    s.append("  var VER = '");
    s.append(ver.as_str());
    s.append("';\n");
    s.append("  var URL = '");
    s.append(url_js.as_str());
    s.append("';\n");
    s.append("  function inject() {\n    if (!document.body) return setTimeout(inject, 50);\n    if (document.getElementById('__dsh_bar')) return;\n    var bar = document.createElement('div');\n    bar.id = '__dsh_bar';\n    bar.style.cssText = 'position:fixed;top:0;left:0;right:0;height:32px;z-index:2147483647;'\n      + 'background:#1f2328;color:#fff;font:12px/32px \"Segoe UI\",system-ui,sans-serif;'\n      + 'display:flex;align-items:center;gap:12px;padding:0 12px;box-shadow:0 1px 4px rgba(0,0,0,.3);';\n    var label = document.createElement('span');\n    label.textContent = 'DSH ' + VER;\n    label.style.cssText = 'font-weight:600;white-space:nowrap;';\n    var urlBox = document.createElement('input');\n    urlBox.type = 'text';\n    urlBox.value = URL;\n    urlBox.readOnly = true;\n    urlBox.title = '点击可选中，复制到浏览器打开';\n    urlBox.style.cssText = 'flex:1;min-width:120px;background:#2b2f36;color:#cfd8e3;border:1px solid #3a3f47;border-radius:4px;padding:2px 8px;font:12px/1.6 monospace;';\n    urlBox.onclick = function() { urlBox.select(); };\n    var btnRestart = document.createElement('button');\n    btnRestart.textContent = '重启';\n    btnRestart.style.cssText = 'cursor:pointer;background:#4f6ef7;color:#fff;border:0;border-radius:4px;padding:3px 10px;font-size:12px;white-space:nowrap;';\n    btnRestart.onclick = function() {\n      try {\n        var inv = window.__TAURI_INTERNALS__ && window.__TAURI_INTERNALS__.invoke;\n        if (inv) { inv('restart_version', { version: VER }).catch(function() { location.reload(); }); return; }\n      } catch (e) {}\n      location.reload();\n    };\n    var btnFold = document.createElement('button');\n    btnFold.textContent = '收起';\n    btnFold.style.cssText = 'cursor:pointer;background:transparent;color:#fff;border:1px solid #555;border-radius:4px;padding:3px 10px;font-size:12px;white-space:nowrap;';\n    var folded = false;\n    btnFold.onclick = function() {\n      folded = !folded;\n      bar.style.height = folded ? '18px' : '32px';\n      bar.style.lineHeight = folded ? '18px' : '32px';\n      label.style.display = folded ? 'none' : '';\n      urlBox.style.display = folded ? 'none' : '';\n      btnRestart.style.display = folded ? 'none' : '';\n      btnFold.textContent = folded ? '展开' : '收起';\n      var st = document.getElementById('__dsh_bar_style');\n      if (st) st.textContent = 'body{padding-top:' + (folded ? '18px' : '32px') + ' !important;}';\n    };\n    bar.appendChild(label);\n    bar.appendChild(urlBox);\n    bar.appendChild(btnRestart);\n    bar.appendChild(btnFold);\n    var style = document.createElement('style');\n    style.id = '__dsh_bar_style';\n    style.textContent = 'body{padding-top:32px !important;}';\n    document.head.appendChild(style);\n    document.body.appendChild(bar);\n  }\n  if (document.readyState === 'loading') document.addEventListener('DOMContentLoaded', inject);\n  else inject();\n})();\n");
    s
}

/// The map that a list of `(label, generation, process)` entries stands for.
pub open spec fn entry_map<T>(s: Seq<(String, u64, T)>) -> Map<Seq<char>, (u64, T)>
    decreases s.len(),
{
    if s.len() == 0 {
        Map::empty()
    } else {
        entry_map(s.drop_last()).insert(s.last().0@, (s.last().1, s.last().2))
    }
}

/// No two entries share a label.
pub open spec fn labels_unique<T>(s: Seq<(String, u64, T)>) -> bool {
    forall|i: int, j: int| 0 <= i < j < s.len() ==> (#[trigger] s[i]).0@ != (#[trigger] s[j]).0@
}

/// The map holds exactly the labels of the entries, each with its own entry's values.
proof fn lemma_entry_map<T>(s: Seq<(String, u64, T)>)
    requires
        labels_unique(s),
    ensures
        forall|l: Seq<char>| #[trigger] entry_map(s).contains_key(l) <==> exists|i: int| 0 <= i < s.len() && s[i].0@ == l,
        forall|i: int| 0 <= i < s.len() ==> #[trigger] entry_map(s)[s[i].0@] == (s[i].1, s[i].2),
    decreases s.len(),
{
    if s.len() > 0 {
        let d = s.drop_last();
        assert(labels_unique(d)) by {
            assert forall|i: int, j: int| 0 <= i < j < d.len() implies (#[trigger] d[i]).0@ != (#[trigger] d[j]).0@ by {
                assert(d[i] == s[i] && d[j] == s[j]);
            }
        }
        lemma_entry_map(d);
        assert forall|l: Seq<char>| #[trigger] entry_map(s).contains_key(l) <==> exists|i: int| 0 <= i < s.len() && s[i].0@ == l by {
            if entry_map(s).contains_key(l) && l != s.last().0@ {
                assert(entry_map(d).contains_key(l));
                let i = choose|i: int| 0 <= i < d.len() && d[i].0@ == l;
                assert(s[i] == d[i]);
            }
            if exists|i: int| 0 <= i < s.len() && s[i].0@ == l {
                let i = choose|i: int| 0 <= i < s.len() && s[i].0@ == l;
                if i < s.len() - 1 {
                    assert(d[i] == s[i]);
                    assert(entry_map(d).contains_key(d[i].0@));
                }
            }
        }
        assert forall|i: int| 0 <= i < s.len() implies #[trigger] entry_map(s)[s[i].0@] == (s[i].1, s[i].2) by {
            if i < s.len() - 1 {
                assert(d[i] == s[i]);
                assert(s[i].0@ != s[s.len() - 1].0@);
                assert(entry_map(d)[d[i].0@] == (d[i].1, d[i].2));
            }
        }
    }
}

/// The map has one label per entry.
proof fn lemma_entry_map_len<T>(s: Seq<(String, u64, T)>)
    requires
        labels_unique(s),
    ensures
        entry_map(s).dom().finite(),
        entry_map(s).dom().len() == s.len(),
    decreases s.len(),
{
    if s.len() > 0 {
        let d = s.drop_last();
        assert(labels_unique(d)) by {
            assert forall|i: int, j: int| 0 <= i < j < d.len() implies (#[trigger] d[i]).0@ != (#[trigger] d[j]).0@ by {
                assert(d[i] == s[i] && d[j] == s[j]);
            }
        }
        lemma_entry_map_len(d);
        lemma_entry_map(d);
        assert(!entry_map(d).contains_key(s.last().0@)) by {
            if entry_map(d).contains_key(s.last().0@) {
                let i = choose|i: int| 0 <= i < d.len() && d[i].0@ == s.last().0@;
                assert(s[i] == d[i]);
            }
        }
        assert(entry_map(s).dom() =~= entry_map(d).dom().insert(s.last().0@));
    } else {
        assert(entry_map(s).dom() =~= Set::<Seq<char>>::empty());
    }
}

/// Removing one entry removes its label from the map.
proof fn lemma_entry_map_remove<T>(s: Seq<(String, u64, T)>, i: int)
    requires
        labels_unique(s),
        0 <= i < s.len(),
    ensures
        labels_unique(s.remove(i)),
        entry_map(s.remove(i)) == entry_map(s).remove(s[i].0@),
{
    let r = s.remove(i);
    assert(labels_unique(r)) by {
        assert forall|a: int, b: int| 0 <= a < b < r.len() implies (#[trigger] r[a]).0@ != (#[trigger] r[b]).0@ by {
            let a2 = if a < i { a } else { a + 1 };
            let b2 = if b < i { b } else { b + 1 };
            assert(r[a] == s[a2] && r[b] == s[b2]);
        }
    }
    lemma_entry_map(s);
    lemma_entry_map(r);
    assert forall|l: Seq<char>| #[trigger] entry_map(r).contains_key(l) <==> entry_map(s).remove(s[i].0@).contains_key(l) by {
        if entry_map(r).contains_key(l) {
            let k = choose|k: int| 0 <= k < r.len() && r[k].0@ == l;
            let k2 = if k < i { k } else { k + 1 };
            assert(r[k] == s[k2]);
        }
        if entry_map(s).remove(s[i].0@).contains_key(l) {
            let k = choose|k: int| 0 <= k < s.len() && s[k].0@ == l;
            assert(k != i);
            let k2 = if k < i { k } else { k - 1 };
            assert(r[k2] == s[k]);
        }
    }
    assert forall|l: Seq<char>| #[trigger] entry_map(r).contains_key(l) implies entry_map(r)[l] == entry_map(s)[l] by {
        let k = choose|k: int| 0 <= k < r.len() && r[k].0@ == l;
        let k2 = if k < i { k } else { k + 1 };
        assert(r[k] == s[k2]);
    }
    assert(entry_map(r) =~= entry_map(s).remove(s[i].0@));
}

/// Some label of `m` has the process `p`.
pub open spec fn holds_process<T>(m: Map<Seq<char>, (u64, T)>, p: T) -> bool {
    exists|l: Seq<char>| #[trigger] m.contains_key(l) && m[l].1 == p
}

/// The running dsh process of each embedded window, by window label, with the generation
/// of the window that started it; and the next generation to hand out.
///
/// A window's "destroyed" callback only stops the process of its own generation, so a
/// window replaced under the same label does not stop its successor's process.
///
/// The entries are a list whose labels are pairwise distinct; `map` gives the table's
/// contents as a map from label to generation and process.
pub struct ProcTable<T> {
    entries: Vec<(String, u64, T)>,
    next_generation: u64,
}

impl<T> ProcTable<T> {
    #[verifier::type_invariant]
    closed spec fn well_formed(self) -> bool {
        labels_unique(self.entries@)
    }

    /// The processes by window label, each with its generation.
    pub closed spec fn map(&self) -> Map<Seq<char>, (u64, T)> {
        entry_map(self.entries@)
    }

    /// The generation that the next window will get.
    pub closed spec fn upcoming(&self) -> u64 {
        self.next_generation
    }

    /// An empty table; generations start at 1.
    pub fn new() -> (t: Self)
        ensures
            t.map() == Map::<Seq<char>, (u64, T)>::empty(),
            t.upcoming() == 1,
    {
        ProcTable { entries: Vec::new(), next_generation: 1 }
    }

    /// Hands out a generation; the next one is one higher, wrapping at `u64::MAX`.
    pub fn next_generation(&mut self) -> (g: u64)
        ensures
            g == old(self).upcoming(),
            final(self).upcoming() == (if g == u64::MAX {
                0
            } else {
                (g + 1) as u64
            }),
            final(self).map() == old(self).map(),
    {
        proof {
            use_type_invariant(&*self);
        }
        let g = self.next_generation;
        self.next_generation = if g == u64::MAX { 0 } else { g + 1 };
        g
    }

    /// The index of `label`'s entry.
    fn position(&self, label: &str) -> (r: Option<usize>)
        ensures
            r matches Some(i) ==> i < self.entries@.len() && self.entries@[i as int].0@ == label@,
            r is None ==> forall|i: int| 0 <= i < self.entries@.len() ==> self.entries@[i].0@ != label@,
    {
        let mut i: usize = 0;
        while i < self.entries.len()
            invariant
                i <= self.entries@.len(),
                forall|k: int| 0 <= k < i ==> self.entries@[k].0@ != label@,
            decreases self.entries.len() - i,
        {
            if equal_text(self.entries[i].0.as_str(), label) {
                return Some(i);
            }
            i += 1;
        }
        None
    }

    /// Whether a process is registered for `label`.
    pub fn contains(&self, label: &str) -> (b: bool)
        ensures
            b == self.map().contains_key(label@),
    {
        proof {
            use_type_invariant(self);
            lemma_entry_map(self.entries@);
        }
        self.position(label).is_some()
    }

    /// Removes and returns the process registered for `label`, if any.
    pub fn take(&mut self, label: &str) -> (r: Option<T>)
        ensures
            old(self).map().contains_key(label@) ==> r == Some(old(self).map()[label@].1),
            !old(self).map().contains_key(label@) ==> r is None,
            final(self).map() == old(self).map().remove(label@),
            final(self).upcoming() == old(self).upcoming(),
    {
        proof {
            use_type_invariant(&*self);
            lemma_entry_map(self.entries@);
        }
        match self.position(label) {
            Some(i) => {
                proof {
                    lemma_entry_map_remove(self.entries@, i as int);
                }
                let mut entries: Vec<(String, u64, T)> = Vec::new();
                std::mem::swap(&mut entries, &mut self.entries);
                let (_, _, p) = entries.remove(i);
                self.entries = entries;
                Some(p)
            },
            None => {
                assert(self.map().remove(label@) =~= self.map());
                None
            },
        }
    }

    /// Registers `process` for `label` with `generation`; returns the process it displaces.
    pub fn insert(&mut self, label: String, generation: u64, process: T) -> (r: Option<T>)
        ensures
            final(self).map() == old(self).map().insert(label@, (generation, process)),
            old(self).map().contains_key(label@) ==> r == Some(old(self).map()[label@].1),
            !old(self).map().contains_key(label@) ==> r is None,
            final(self).upcoming() == old(self).upcoming(),
    {
        let old_process = self.take(label.as_str());
        proof {
            use_type_invariant(&*self);
            lemma_entry_map(self.entries@);
        }
        let ghost before = self.entries@;
        let ghost l = label@;
        proof {
            let after = before.push((label, generation, process));
            assert(labels_unique(after)) by {
                assert forall|i: int, j: int| 0 <= i < j < after.len() implies (#[trigger] after[i]).0@ != (#[trigger] after[j]).0@ by {
                    if j == after.len() - 1 {
                        assert(after[i] == before[i]);
                        assert(!entry_map(before).contains_key(l));
                    } else {
                        assert(after[i] == before[i] && after[j] == before[j]);
                    }
                }
            }
            assert(after.drop_last() =~= before);
        }
        let mut entries: Vec<(String, u64, T)> = Vec::new();
        std::mem::swap(&mut entries, &mut self.entries);
        entries.push((label, generation, process));
        self.entries = entries;
        assert(self.map() =~= old(self).map().insert(l, (generation, process)));
        old_process
    }

    /// Removes and returns `label`'s process only if it was registered with `generation`:
    /// the callback of a window that has since been replaced changes nothing.
    pub fn take_if_current(&mut self, label: &str, generation: u64) -> (r: Option<T>)
        ensures
            (old(self).map().contains_key(label@) && old(self).map()[label@].0 == generation) ==> {
                &&& r == Some(old(self).map()[label@].1)
                &&& final(self).map() == old(self).map().remove(label@)
            },
            !(old(self).map().contains_key(label@) && old(self).map()[label@].0 == generation) ==> {
                &&& r is None
                &&& final(self).map() == old(self).map()
            },
            final(self).upcoming() == old(self).upcoming(),
    {
        proof {
            use_type_invariant(&*self);
            lemma_entry_map(self.entries@);
        }
        match self.position(label) {
            Some(i) => {
                if self.entries[i].1 == generation {
                    proof {
                        lemma_entry_map_remove(self.entries@, i as int);
                    }
                    let mut entries: Vec<(String, u64, T)> = Vec::new();
                    std::mem::swap(&mut entries, &mut self.entries);
                    let (_, _, p) = entries.remove(i);
                    self.entries = entries;
                    Some(p)
                } else {
                    None
                }
            },
            None => None,
        }
    }

    /// Removes every process and returns them, for stopping them all on exit.
    pub fn drain(&mut self) -> (r: Vec<T>)
        ensures
            final(self).map() == Map::<Seq<char>, (u64, T)>::empty(),
            final(self).upcoming() == old(self).upcoming(),
            r@.len() == old(self).map().dom().len(),
            forall|l: Seq<char>| old(self).map().contains_key(l) ==> r@.contains(#[trigger] old(self).map()[l].1),
            forall|i: int| 0 <= i < r@.len() ==> holds_process(old(self).map(), #[trigger] r@[i]),
    {
        proof {
            use_type_invariant(&*self);
            lemma_entry_map(self.entries@);
            lemma_entry_map_len(self.entries@);
        }
        let ghost before = self.entries@;
        let mut entries: Vec<(String, u64, T)> = Vec::new();
        std::mem::swap(&mut entries, &mut self.entries);
        let mut out: Vec<T> = Vec::new();
        while entries.len() > 0
            invariant
                entries@.len() + out@.len() == before.len(),
                forall|k: int| 0 <= k < entries@.len() ==> entries@[k] == before[k],
                forall|k: int| 0 <= k < out@.len() ==> out@[k] == before[before.len() - 1 - k].2,
            decreases entries@.len(),
        {
            let (_, _, p) = entries.pop().unwrap();
            out.push(p);
        }
        assert(self.map() =~= Map::<Seq<char>, (u64, T)>::empty());
        assert forall|l: Seq<char>| entry_map(before).contains_key(l) implies out@.contains(#[trigger] entry_map(before)[l].1) by {
            let k = choose|k: int| 0 <= k < before.len() && before[k].0@ == l;
            assert(out@[before.len() - 1 - k] == before[k].2);
        }
        assert forall|i: int| 0 <= i < out@.len() implies holds_process(old(self).map(), #[trigger] out@[i]) by {
            let k = before.len() - 1 - i;
            assert(entry_map(before).contains_key(before[k].0@));
            assert(entry_map(before)[before[k].0@] == (before[k].1, before[k].2));
            assert(entry_map(before)[before[k].0@].1 == out@[i]);
            assert(old(self).map().contains_key(before[k].0@) && old(self).map()[before[k].0@].1 == out@[i]);
        }
        out
    }
}

/// After a window is replaced under the same label by one of another generation, the
/// old window's close callback (`take_if_current` with the old generation) finds the
/// label held by the new generation and stops nothing.
pub proof fn law_stale_close_keeps_successor<T>(
    m: Map<Seq<char>, (u64, T)>,
    label: Seq<char>,
    old_generation: u64,
    new_generation: u64,
    process: T,
)
    requires
        old_generation != new_generation,
    ensures
        !(m.insert(label, (new_generation, process)).contains_key(label) && m.insert(
            label,
            (new_generation, process),
        )[label].0 == old_generation),
{
}

/// Consecutive generations differ.
pub proof fn law_generations_differ(g: u64)
    ensures
        g != (if g == u64::MAX {
            0
        } else {
            (g + 1) as u64
        }),
{
}

} // verus!
