//! The `dsh.cmd` forward script and the interpretation of the remote version listing.

use vstd::prelude::*;
use vstd::string::StringExecFns;
use crate::text::{
    chars_of, ends_with, lines, lines_exec, occurs_at_exec, replace_char, replace_char_exec, rows,
    string_of, slice_chars, strs, trim, trim_class, trim_range, trimmed, CharClass,
};

verus! {

/// The data root as the script writes it: `/` turned into `\`, ending in `\`.
pub open spec fn script_root(root_dir: Seq<char>) -> Seq<char> {
    let r = replace_char(root_dir, '/', seq!['\\']);
    if ends_with(r, seq!['\\']) {
        r
    } else {
        r.push('\\')
    }
}

/// The `DSH_HOME` the script offers: the version's own `home` when isolated, else the
/// shared `home` under the root.
pub open spec fn script_home(version: Seq<char>, root_dir: Seq<char>, isolated: bool) -> Seq<char> {
    if isolated {
        script_root(root_dir) + "versions\\"@ + version + "\\home"@
    } else {
        script_root(root_dir) + "home"@
    }
}

/// The whole text of the forward script.
pub open spec fn forward_script(version: Seq<char>, root_dir: Seq<char>, isolated: bool) -> Seq<char> {
    "@echo off\r\nsetlocal\r\n"@
    + "set \"VER="@ + version + "\"\r\n"@
    + "set \"ROOT="@ + root_dir + "\"\r\n"@
    + "set \"DSH_HOME_CANDIDATE="@ + script_home(version, root_dir, isolated) + "\"\r\n"@
    + "set \"BIN=%ROOT%\\versions\\%VER%\\node_modules\\.bin\\dsh.cmd\"\r\nif not exist \"%BIN%\" (\r\n  echo [dsh] version %VER% not found at %BIN%\r\n  exit /b 1\r\n)\r\nif exist \"%DSH_HOME_CANDIDATE%\" (\r\n  set \"DSH_HOME=%DSH_HOME_CANDIDATE%\"\r\n) else (\r\n  echo [dsh] 数据目录不存在，回退到 dsh 默认位置: %DSH_HOME_CANDIDATE%\r\n)\r\ncall \"%BIN%\" %*\r\n"@
}

/// The content of `dsh.cmd`, the terminal forward script for the default version.
///
/// The version, the data root and `DSH_HOME` are written into the script; at run time it
/// falls back to dsh's own default home when `DSH_HOME` does not exist.
pub fn build_forward_script(version: &str, root_dir: &str, isolated: bool) -> (s: String)
    ensures
        s@ == forward_script(version@, root_dir@, isolated),
{
    let mut root = replace_char_exec(root_dir, '/', "\\");
    let rv = chars_of(root.as_str());
    let bs: Vec<char> = vec!['\\'];
    assert(bs@ =~= seq!['\\']);
    proof {
        reveal_strlit("\\");
        assert("\\"@ =~= seq!['\\']);
    }
    if rv.len() == 0 || !occurs_at_exec(&rv, &bs, rv.len() - 1) {
        root.append("\\");
    }
    assert(root@ == script_root(root_dir@));
    let mut home = root.clone();
    if isolated {
        home.append("versions\\");
        home.append(version);
        home.append("\\home");
    } else {
        home.append("home");
    }
    assert(home@ == script_home(version@, root_dir@, isolated));
    let mut s = String::new();
    s.append("@echo off\r\nsetlocal\r\n");
    s.append("set \"VER=");
    s.append(version);
    s.append("\"\r\n");
    s.append("set \"ROOT=");
    s.append(root_dir);
    s.append("\"\r\n");
    s.append("set \"DSH_HOME_CANDIDATE=");
    s.append(home.as_str());
    s.append("\"\r\n");
    s.append("set \"BIN=%ROOT%\\versions\\%VER%\\node_modules\\.bin\\dsh.cmd\"\r\nif not exist \"%BIN%\" (\r\n  echo [dsh] version %VER% not found at %BIN%\r\n  exit /b 1\r\n)\r\nif exist \"%DSH_HOME_CANDIDATE%\" (\r\n  set \"DSH_HOME=%DSH_HOME_CANDIDATE%\"\r\n) else (\r\n  echo [dsh] 数据目录不存在，回退到 dsh 默认位置: %DSH_HOME_CANDIDATE%\r\n)\r\ncall \"%BIN%\" %*\r\n");
    s
}

/// `replace_char` leaves no `from` behind when `to` holds none.
proof fn lemma_replace_char_removes(s: Seq<char>, from: char, to: Seq<char>)
    requires
        !to.contains(from),
    ensures
        !replace_char(s, from, to).contains(from),
    decreases s.len(),
{
    if s.len() > 0 {
        lemma_replace_char_removes(s.drop_last(), from, to);
        let a = replace_char(s.drop_last(), from, to);
        let b = if s.last() == from {
            to
        } else {
            seq![s.last()]
        };
        if (a + b).contains(from) {
            let k = choose|k: int| 0 <= k < (a + b).len() && (a + b)[k] == from;
            if k < a.len() {
                assert(a[k] == from);
            } else {
                assert(b[k - a.len()] == from);
            }
        }
    }
}

/// The root written into the script's `DSH_HOME` ends with a backslash and holds no
/// forward slash.
pub proof fn law_script_root_normalized(root_dir: Seq<char>)
    ensures
        ends_with(script_root(root_dir), seq!['\\']),
        !script_root(root_dir).contains('/'),
{
    let r = replace_char(root_dir, '/', seq!['\\']);
    lemma_replace_char_removes(root_dir, '/', seq!['\\']);
    if !ends_with(r, seq!['\\']) {
        let p = r.push('\\');
        assert(p.subrange(p.len() - 1, p.len() as int) =~= seq!['\\']);
        if p.contains('/') {
            let k = choose|k: int| 0 <= k < p.len() && p[k] == '/';
            assert(k < r.len());
            assert(r[k] == '/');
        }
    }
}

/// The texts of an optional list of strings.
pub open spec fn opt_strs(o: Option<Vec<String>>) -> Option<Seq<Seq<char>>> {
    match o {
        Some(v) => Some(strs(v@)),
        None => None,
    }
}

/// The texts of an optional list of lists of strings.
pub open spec fn opt_nested_strs(o: Option<Vec<Vec<String>>>) -> Option<Seq<Seq<Seq<char>>>> {
    match o {
        Some(v) => Some(v@.map_values(|x: Vec<String>| strs(x@))),
        None => None,
    }
}

/// `serde_json::Error`, carried through as an opaque value.
#[verifier::external_type_specification]
#[verifier::external_body]
pub struct ExJsonError(serde_json::Error);

/// What `serde_json::from_str::<Vec<String>>` reads from `text`: the strings of a JSON
/// array of strings, or nothing when `text` is not one.
pub uninterp spec fn json_string_array(text: Seq<char>) -> Option<Seq<Seq<char>>>;

/// What `serde_json::from_str::<Vec<Vec<String>>>` reads from `text`: the lists of a JSON
/// array of arrays of strings, or nothing when `text` is not one.
pub uninterp spec fn json_string_array_array(text: Seq<char>) -> Option<Seq<Seq<Seq<char>>>>;

/// `serde_json::from_str::<Vec<String>>(text)`: claimed to succeed exactly when `text`
/// is read as a JSON array of strings (`json_string_array`), giving those strings.
#[verifier::external_body]
fn read_json_strings(text: &str) -> (r: Result<Vec<String>, serde_json::Error>)
    ensures
        r is Ok <==> json_string_array(text@) is Some,
        r matches Ok(v) ==> json_string_array(text@) == Some(strs(v@)),
{
    serde_json::from_str::<Vec<String>>(text)
}

/// `serde_json::from_str::<Vec<Vec<String>>>(text)`: claimed to succeed exactly when
/// `text` is read as a JSON array of arrays of strings (`json_string_array_array`),
/// giving those lists.
#[verifier::external_body]
fn read_json_string_lists(text: &str) -> (r: Result<Vec<Vec<String>>, serde_json::Error>)
    ensures
        r is Ok <==> json_string_array_array(text@) is Some,
        r matches Ok(v) ==> json_string_array_array(text@) == Some(
            v@.map_values(|x: Vec<String>| strs(x@)),
        ),
{
    serde_json::from_str::<Vec<Vec<String>>>(text)
}

/// One line of a non-JSON listing, with white space, quotes, commas and brackets
/// stripped from both ends, in that order.
pub open spec fn clean_listing_line(l: Seq<char>) -> Seq<char> {
    trim_class(
        trim_class(
            trim_class(trim_class(trim(l), CharClass::Exactly('"')), CharClass::Exactly(',')),
            CharClass::Exactly('['),
        ),
        CharClass::Exactly(']'),
    )
}

/// The cleaned lines of a listing that are not empty, in order.
pub open spec fn listing_entries(ls: Seq<Seq<char>>) -> Seq<Seq<char>>
    decreases ls.len(),
{
    if ls.len() == 0 {
        Seq::empty()
    } else {
        let rest = listing_entries(ls.drop_last());
        let c = clean_listing_line(ls.last());
        if c.len() > 0 {
            rest.push(c)
        } else {
            rest
        }
    }
}

/// The versions in a listing, newest first: the JSON array of strings if the listing is
/// one, else the first list of a JSON array of lists (none if that array is empty), else
/// the cleaned non-empty lines; reversed, since the registry lists oldest first.
pub open spec fn listed_versions(
    trimmed: Seq<char>,
    flat: Option<Seq<Seq<char>>>,
    nested: Option<Seq<Seq<Seq<char>>>>,
) -> Seq<Seq<char>> {
    (match flat {
        Some(v) => v,
        None => match nested {
            Some(vv) => if vv.len() > 0 {
                vv[0]
            } else {
                Seq::empty()
            },
            None => listing_entries(lines(trimmed)),
        },
    }).reverse()
}

/// The cleaned non-empty lines of `text`.
fn listing_lines(text: &str) -> (r: Vec<String>)
    ensures
        strs(r@) == listing_entries(lines(text@)),
{
    let v = chars_of(text);
    let ls = lines_exec(&v);
    let mut out: Vec<String> = Vec::new();
    let mut i: usize = 0;
    while i < ls.len()
        invariant
            i <= ls.len(),
            rows(ls@) == lines(text@),
            strs(out@) == listing_entries(rows(ls@).take(i as int)),
        decreases ls.len() - i,
    {
        let l = &ls[i];
        let r0 = trim_range(l, 0, l.len(), &CharClass::Space);
        let r1 = trim_range(l, r0.0, r0.1, &CharClass::Exactly('"'));
        let r2 = trim_range(l, r1.0, r1.1, &CharClass::Exactly(','));
        let r3 = trim_range(l, r2.0, r2.1, &CharClass::Exactly('['));
        let r4 = trim_range(l, r3.0, r3.1, &CharClass::Exactly(']'));
        assert(l@.subrange(0, l@.len() as int) =~= l@);
        assert(rows(ls@)[i as int] == l@);
        let ghost c = clean_listing_line(l@);
        assert(l@.subrange(r4.0 as int, r4.1 as int) == c);
        assert(rows(ls@).take(i + 1).drop_last() =~= rows(ls@).take(i as int));
        let ghost before = strs(out@);
        if r4.0 < r4.1 {
            out.push(string_of(&slice_chars(l, r4.0, r4.1)));
            assert(strs(out@) =~= before.push(c));
        }
        i += 1;
    }
    assert(rows(ls@).take(ls.len() as int) =~= rows(ls@));
    out
}

/// The versions of a listing, given what the two JSON readings gave; see
/// [`listed_versions`].
pub fn versions_from_listing(
    trimmed: &str,
    flat: Option<Vec<String>>,
    nested: Option<Vec<Vec<String>>>,
) -> (r: Vec<String>)
    ensures
        strs(r@) == listed_versions(trimmed@, opt_strs(flat), opt_nested_strs(nested)),
{
    let ghost nested_view = opt_nested_strs(nested);
    let chosen: Vec<String> = match flat {
        Some(v) => v,
        None => match nested {
            Some(vv) => {
                let mut vv = vv;
                if vv.len() > 0 {
                    assert(nested_view->0[0] == strs(vv@[0]@));
                    vv.swap_remove(0)
                } else {
                    Vec::new()
                }
            },
            None => listing_lines(trimmed),
        },
    };
    let ghost target = strs(chosen@);
    let mut out: Vec<String> = Vec::new();
    let mut i = chosen.len();
    let ghost orig = chosen@;
    while i > 0
        invariant
            i <= orig.len(),
            chosen@ == orig,
            strs(out@) == strs(orig).reverse().take((orig.len() - i) as int),
        decreases i,
    {
        i -= 1;
        let ghost before = out@;
        out.push(chosen[i].clone());
        assert(out@ =~= before.push(orig[i as int]));
        assert(strs(out@) =~= strs(before).push(orig[i as int]@));
        assert(strs(orig).reverse()[orig.len() - 1 - i] == strs(orig)[i as int]);
        assert(strs(out@) =~= strs(orig).reverse().take((orig.len() - i) as int));
    }
    assert(strs(orig).reverse().take(orig.len() as int) =~= strs(orig).reverse());
    out
}

/// The arguments of `pnpm` that list every published version of dsh as JSON, with the
/// store, cache and state kept under the data root.
pub fn remote_listing_args(store: &str, cache: &str, state: &str) -> (r: Vec<String>)
    ensures
        strs(r@) == seq![
            "view"@,
            "@deepseek-ai/dsh"@,
            "versions"@,
            "--json"@,
            "--store-dir"@,
            store@,
            "--cache-dir"@,
            cache@,
            "--state-dir"@,
            state@,
        ],
{
    let mut r: Vec<String> = Vec::new();
    r.push(String::from_str("view"));
    r.push(String::from_str("@deepseek-ai/dsh"));
    r.push(String::from_str("versions"));
    r.push(String::from_str("--json"));
    r.push(String::from_str("--store-dir"));
    r.push(String::from_str(store));
    r.push(String::from_str("--cache-dir"));
    r.push(String::from_str(cache));
    r.push(String::from_str("--state-dir"));
    r.push(String::from_str(state));
    assert(strs(r@) =~= seq![
        "view"@,
        "@deepseek-ai/dsh"@,
        "versions"@,
        "--json"@,
        "--store-dir"@,
        store@,
        "--cache-dir"@,
        cache@,
        "--state-dir"@,
        state@,
    ]);
    r
}

/// The arguments of `pnpm` that ask the registry for dsh's latest version.
pub fn registry_probe_args() -> (r: Vec<String>)
    ensures
        strs(r@) == seq!["view"@, "@deepseek-ai/dsh"@, "version"@],
{
    let mut r: Vec<String> = Vec::new();
    r.push(String::from_str("view"));
    r.push(String::from_str("@deepseek-ai/dsh"));
    r.push(String::from_str("version"));
    assert(strs(r@) =~= seq!["view"@, "@deepseek-ai/dsh"@, "version"@]);
    r
}

/// The versions that the registry listing `stdout` names, newest first.
pub fn remote_versions(stdout: &str) -> (r: Vec<String>)
    ensures
        strs(r@) == listed_versions(
            trim(stdout@),
            json_string_array(trim(stdout@)),
            json_string_array_array(trim(stdout@)),
        ),
{
    let t = trimmed(stdout);
    let flat = match read_json_strings(t.as_str()) {
        Ok(v) => Some(v),
        Err(_) => None,
    };
    let nested = if flat.is_some() {
        None
    } else {
        match read_json_string_lists(t.as_str()) {
            Ok(v) => Some(v),
            Err(_) => None,
        }
    };
    versions_from_listing(t.as_str(), flat, nested)
}

/// The outcome of listing the remote versions, given how the listing command ended:
/// on failure the message is its error output, or its standard output when the error
/// output is blank; on success the versions, newest first, and no message.
pub fn interpret_remote_listing(ok: bool, stdout: &str, stderr: &str) -> (r: (bool, Vec<String>, String))
    ensures
        r.0 == ok,
        !ok ==> r.1@.len() == 0 && r.2@ == (if trim(stderr@).len() == 0 {
            stdout@
        } else {
            stderr@
        }),
        ok ==> r.2@.len() == 0 && strs(r.1@) == listed_versions(
            trim(stdout@),
            json_string_array(trim(stdout@)),
            json_string_array_array(trim(stdout@)),
        ),
{
    if !ok {
        let e = trimmed(stderr);
        let msg = if e.as_str().is_empty() {
            String::from_str(stdout)
        } else {
            String::from_str(stderr)
        };
        return (false, Vec::new(), msg);
    }
    (true, remote_versions(stdout), String::new())
}

} // verus!
