//! The environment checks shown before installing: Node.js, pnpm, a writable root, the
//! target disk and the npm registry.

use vstd::prelude::*;
use vstd::string::StringExecFns;
use crate::text::{
    chars_of, decimal, decimal_exec, decimal_value, find, first_line, find_exec, is_digit,
    is_digit_char, is_space, is_space_char, lines, lines_exec, opt_text, parse_digits, rows,
    slice_chars, string_of, strs, trim, trimmed,
};

verus! {

/// The result of one check.
pub struct CheckItem {
    /// What was checked.
    pub name: String,
    /// Whether it passed.
    pub ok: bool,
    /// The version found, or why the check failed.
    pub detail: String,
    /// Whether a failure prevents installing.
    pub critical: bool,
}

/// The first line of `s`.
pub fn first_line_exec(s: &str) -> (r: String)
    ensures
        r@ == first_line(s@),
{
    let v = chars_of(s);
    let ls = lines_exec(&v);
    if ls.len() > 0 {
        assert(crate::text::rows(ls@)[0] == ls@[0]@);
        string_of(&ls[0])
    } else {
        String::new()
    }
}

/// What a `--version` probe reports: the first line of its trimmed standard output, or of
/// its trimmed error output when the standard output is blank; nothing when the command
/// failed or printed nothing.
pub open spec fn version_line(success: bool, stdout: Seq<char>, stderr: Seq<char>) -> Option<Seq<char>> {
    if !success {
        None
    } else if trim(stdout).len() == 0 {
        if trim(stderr).len() == 0 {
            None
        } else {
            Some(first_line(trim(stderr)))
        }
    } else {
        Some(first_line(trim(stdout)))
    }
}

/// The version that a `--version` probe reports, from how the probe ended.
pub fn first_version_line(success: bool, stdout: &str, stderr: &str) -> (r: Option<String>)
    ensures
        opt_text(r) == version_line(success, stdout@, stderr@),
{
    if !success {
        return None;
    }
    let s = trimmed(stdout);
    if s.as_str().is_empty() {
        let e = trimmed(stderr);
        if e.as_str().is_empty() {
            None
        } else {
            Some(first_line_exec(e.as_str()))
        }
    } else {
        Some(first_line_exec(s.as_str()))
    }
}

/// `s` with only its ASCII digits and dots, in order.
pub open spec fn version_chars(s: Seq<char>) -> Seq<char>
    decreases s.len(),
{
    if s.len() == 0 {
        s
    } else if is_digit(s.last()) || s.last() == '.' {
        version_chars(s.drop_last()).push(s.last())
    } else {
        version_chars(s.drop_last())
    }
}

/// The text before the first dot of `s`, or all of `s`.
pub open spec fn before_dot(s: Seq<char>) -> Seq<char> {
    match find(s, seq!['.']) {
        Some(i) => s.take(i),
        None => s,
    }
}

/// The major version in a version text such as `v22.19.0`: the digits before the first
/// dot once all but digits and dots are dropped, if they form a `u32`.
pub open spec fn major_of(s: Seq<char>) -> Option<nat> {
    let d = before_dot(version_chars(s));
    if d.len() > 0 && decimal_value(d) <= u32::MAX {
        Some(decimal_value(d))
    } else {
        None
    }
}

/// Keeping the digits and dots of two texts one after the other keeps those of each.
proof fn lemma_version_chars_append(a: Seq<char>, b: Seq<char>)
    ensures
        version_chars(a + b) == version_chars(a) + version_chars(b),
    decreases b.len(),
{
    if b.len() == 0 {
        assert(a + b =~= a);
        assert(version_chars(a) + version_chars(b) =~= version_chars(a));
    } else {
        lemma_version_chars_append(a, b.drop_last());
        assert((a + b).drop_last() =~= a + b.drop_last());
        assert((a + b).last() == b.last());
        if is_digit(b.last()) || b.last() == '.' {
            assert(version_chars(a) + version_chars(b) =~= (version_chars(a) + version_chars(
                b.drop_last(),
            )).push(b.last()));
        }
    }
}

/// A run of digits is kept whole.
proof fn lemma_version_chars_digits(d: Seq<char>)
    requires
        forall|k: int| 0 <= k < d.len() ==> is_digit(#[trigger] d[k]),
    ensures
        version_chars(d) == d,
    decreases d.len(),
{
    if d.len() > 0 {
        lemma_version_chars_digits(d.drop_last());
        assert(is_digit(d[d.len() - 1]));
        assert(d.drop_last().push(d.last()) =~= d);
    }
}

/// The major version of a text such as `v24.11.0` is the number before its first dot:
/// for any non-empty run of digits `d` whose number fits in a `u32`, and any text `rest`,
/// both `d.rest` and `vd.rest` have the major version that `d` spells.
pub proof fn law_major_is_first_number(d: Seq<char>, rest: Seq<char>)
    requires
        d.len() > 0,
        forall|k: int| 0 <= k < d.len() ==> is_digit(#[trigger] d[k]),
        decimal_value(d) <= u32::MAX,
    ensures
        major_of(d + seq!['.'] + rest) == Some(decimal_value(d)),
        major_of(seq!['v'] + d + seq!['.'] + rest) == Some(decimal_value(d)),
{
    lemma_version_chars_digits(d);
    lemma_version_chars_append(d + seq!['.'], rest);
    lemma_version_chars_append(d, seq!['.']);
    lemma_version_chars_append(seq!['v'] + d + seq!['.'], rest);
    lemma_version_chars_append(seq!['v'] + d, seq!['.']);
    lemma_version_chars_append(seq!['v'], d);
    assert(version_chars(Seq::<char>::empty()) =~= Seq::<char>::empty());
    assert(seq!['.'].drop_last() =~= Seq::<char>::empty());
    assert(seq!['.'].last() == '.');
    assert(!is_digit('v'));
    assert(seq!['v'].drop_last() =~= Seq::<char>::empty());
    assert(version_chars(seq!['.']) =~= seq!['.']);
    assert(version_chars(seq!['v']) =~= Seq::<char>::empty());
    let x = d + seq!['.'] + version_chars(rest);
    assert(version_chars(d + seq!['.'] + rest) =~= x);
    assert(version_chars(seq!['v'] + d + seq!['.'] + rest) =~= x);
    crate::text::lemma_find_from(x, seq!['.'], 0);
    assert(crate::text::occurs_at(x, seq!['.'], d.len() as int)) by {
        assert(x.subrange(d.len() as int, d.len() as int + 1) =~= seq!['.']);
    }
    assert forall|k: int| 0 <= k < d.len() implies !crate::text::occurs_at(x, seq!['.'], k) by {
        assert(x.subrange(k, k + 1)[0] == x[k]);
        assert(x[k] == d[k]);
        assert(is_digit(d[k]));
    }
    assert(before_dot(x) =~= d);
}

/// The major version in a version text, such as 22 for `v22.19.0`.
pub fn major_version(s: &str) -> (r: Option<u32>)
    ensures
        r is Some <==> major_of(s@) is Some,
        r matches Some(m) ==> major_of(s@) == Some(m as nat),
{
    let v = chars_of(s);
    let mut cleaned: Vec<char> = Vec::new();
    let mut i: usize = 0;
    while i < v.len()
        invariant
            i <= v.len(),
            v@ == s@,
            cleaned@ == version_chars(v@.take(i as int)),
        decreases v.len() - i,
    {
        assert(v@.take(i + 1).drop_last() =~= v@.take(i as int));
        if is_digit_char(v[i]) || v[i] == '.' {
            cleaned.push(v[i]);
        }
        i += 1;
    }
    assert(v@.take(v.len() as int) =~= v@);
    let dot: Vec<char> = vec!['.'];
    assert(dot@ =~= seq!['.']);
    let end = match find_exec(&cleaned, &dot, 0) {
        Some(j) => {
            proof {
                crate::text::lemma_find_from(cleaned@, dot@, 0);
            }
            j
        },
        None => cleaned.len(),
    };
    assert(cleaned@.subrange(0, end as int) == before_dot(cleaned@));
    proof {
        lemma_version_chars(v@);
        crate::text::lemma_find_from(cleaned@, dot@, 0);
        assert forall|k: int| 0 <= k < end implies is_digit(#[trigger] cleaned@[k]) by {
            assert(cleaned@.subrange(k, k + 1) =~= seq![cleaned@[k]]);
            assert(!crate::text::occurs_at(cleaned@, dot@, k));
        }
    }
    match parse_digits(&cleaned, 0, end, 4294967295u64) {
        Some(n) => Some(n as u32),
        None => None,
    }
}

/// Before the first dot there are only digits.
proof fn lemma_version_chars(s: Seq<char>)
    ensures
        forall|k: int| 0 <= k < version_chars(s).len() ==> is_digit(#[trigger] version_chars(s)[k]) || version_chars(s)[k] == '.',
    decreases s.len(),
{
    if s.len() > 0 {
        lemma_version_chars(s.drop_last());
        let p = version_chars(s.drop_last());
        if is_digit(s.last()) || s.last() == '.' {
            assert forall|k: int| 0 <= k < version_chars(s).len() implies is_digit(
                #[trigger] version_chars(s)[k],
            ) || version_chars(s)[k] == '.' by {
                if k < p.len() {
                    assert(version_chars(s)[k] == p[k]);
                }
            }
        }
    }
}

/// The Node.js check for what `node --version` reported: it passes for major version 22
/// or later, an unreadable version counting as 0.
pub open spec fn node_item(c: CheckItem, probe: Option<Seq<char>>) -> bool {
    &&& c.name@ == "Node.js"@
    &&& c.critical
    &&& match probe {
        None => !c.ok && c.detail@ == "未找到 node 命令，请先安装 Node.js 22+"@,
        Some(v) => {
            let major = match major_of(v) {
                Some(m) => m,
                None => 0,
            };
            &&& c.ok == (major >= 22)
            &&& c.detail@ == v + (if major >= 22 {
                "（满足 >= 22）"@
            } else {
                "（需要 22 或更高）"@
            })
        },
    }
}

/// The Node.js check passes exactly when the reported major version is 22 or later: any
/// newer major passes, any older or unreadable one fails, and a missing `node` fails.
pub proof fn law_node_check_from_22(c: CheckItem, probe: Option<Seq<char>>)
    requires
        node_item(c, probe),
    ensures
        c.ok <==> (probe matches Some(v) && major_of(v) matches Some(m) && m >= 22),
{
}

/// Of two reported Node.js versions, the one with the greater or equal major version
/// passes whenever the other does.
pub proof fn law_node_check_monotone(c1: CheckItem, v1: Seq<char>, c2: CheckItem, v2: Seq<char>, m1: nat, m2: nat)
    requires
        node_item(c1, Some(v1)),
        node_item(c2, Some(v2)),
        major_of(v1) == Some(m1),
        major_of(v2) == Some(m2),
        m1 <= m2,
    ensures
        c1.ok ==> c2.ok,
{
}

/// The pnpm check for what `pnpm --version` reported.
pub open spec fn pnpm_item(c: CheckItem, probe: Option<Seq<char>>) -> bool {
    &&& c.name@ == "pnpm"@
    &&& c.critical
    &&& c.ok == probe is Some
    &&& match probe {
        None => c.detail@ == "未找到 pnpm 命令，请先安装 pnpm"@,
        Some(v) => c.detail@ == v,
    }
}

/// The writable-root check for the outcome of writing a test file into `root`.
pub open spec fn writable_item(c: CheckItem, root: Seq<char>, outcome: Result<(), String>) -> bool {
    &&& c.name@ == "根目录可写"@
    &&& c.critical
    &&& c.ok == outcome is Ok
    &&& match outcome {
        Ok(_) => c.detail@ == root,
        Err(e) => c.detail@ == "无法写入 "@ + root + ": "@ + e@,
    }
}

/// The disk check for `root` with the free space measured there, in MB: it names the
/// target and the figure, or says that the figure could not be had. It always passes:
/// a disk too full for an install is reported by pnpm itself.
pub open spec fn disk_item(c: CheckItem, root: Seq<char>, free_mb: Option<u64>) -> bool {
    &&& c.name@ == "磁盘空间"@
    &&& c.ok
    &&& !c.critical
    &&& match free_mb {
        Some(n) => c.detail@ == "目标："@ + root + "，剩余空间 "@ + decimal(n as nat) + " MB"@,
        None => c.detail@ == "目标："@ + root + "，无法获取剩余空间"@,
    }
}

/// The registry check for how the registry query ended.
pub open spec fn registry_item(c: CheckItem, outcome: Result<(bool, String, String), String>) -> bool {
    &&& c.name@ == "npm 源连通"@
    &&& !c.critical
    &&& match outcome {
        Ok(o) => {
            &&& c.ok == o.0
            &&& c.detail@ == (if o.0 {
                trim(o.1@)
            } else if trim(o.2@).len() == 0 {
                "无法访问 npm 源"@
            } else {
                first_line(trim(o.2@))
            })
        },
        Err(e) => !c.ok && c.detail@ == "检查失败："@ + e@,
    }
}

/// The Node.js check, from what `node --version` reported: it passes for major version
/// 22 or later (an unreadable version counts as 0).
pub fn check_node(probe: Option<String>) -> (c: CheckItem)
    ensures
        node_item(c, opt_text(probe)),
{
    match probe {
        Some(v) => {
            let major = match major_version(v.as_str()) {
                Some(m) => m,
                None => 0,
            };
            let ok = major >= 22;
            let mut detail = v;
            if ok {
                detail.append("（满足 >= 22）");
            } else {
                detail.append("（需要 22 或更高）");
            }
            CheckItem { name: String::from_str("Node.js"), ok, detail, critical: true }
        },
        None => CheckItem {
            name: String::from_str("Node.js"),
            ok: false,
            detail: String::from_str("未找到 node 命令，请先安装 Node.js 22+"),
            critical: true,
        },
    }
}

/// The pnpm check, from what `pnpm --version` reported.
pub fn check_pnpm(probe: Option<String>) -> (c: CheckItem)
    ensures
        pnpm_item(c, opt_text(probe)),
{
    match probe {
        Some(v) => CheckItem { name: String::from_str("pnpm"), ok: true, detail: v, critical: true },
        None => CheckItem {
            name: String::from_str("pnpm"),
            ok: false,
            detail: String::from_str("未找到 pnpm 命令，请先安装 pnpm"),
            critical: true,
        },
    }
}

/// The check that the data root is writable, from the outcome of writing and removing a
/// test file there.
pub fn check_writable(root: &str, outcome: Result<(), String>) -> (c: CheckItem)
    ensures
        writable_item(c, root@, outcome),
{
    match outcome {
        Ok(()) => CheckItem {
            name: String::from_str("根目录可写"),
            ok: true,
            detail: String::from_str(root),
            critical: true,
        },
        Err(e) => {
            let mut d = String::from_str("无法写入 ");
            d.append(root);
            d.append(": ");
            d.append(e.as_str());
            CheckItem { name: String::from_str("根目录可写"), ok: false, detail: d, critical: true }
        },
    }
}

/// The disk check, from the free space measured at the data root, in MB.
pub fn check_disk(root: &str, free_mb: Option<u64>) -> (c: CheckItem)
    ensures
        disk_item(c, root@, free_mb),
{
    let mut detail = String::from_str("目标：").concat(root);
    match free_mb {
        Some(n) => {
            detail.append("，剩余空间 ");
            detail.append(decimal_exec(n).as_str());
            detail.append(" MB");
            CheckItem { name: String::from_str("磁盘空间"), ok: true, detail, critical: false }
        },
        None => {
            detail.append("，无法获取剩余空间");
            CheckItem { name: String::from_str("磁盘空间"), ok: true, detail, critical: false }
        },
    }
}

/// The registry check, from how `pnpm view @deepseek-ai/dsh version` ended: its success
/// flag with its output and error output, or the error that kept it from running.
pub fn check_registry(outcome: Result<(bool, String, String), String>) -> (c: CheckItem)
    ensures
        registry_item(c, outcome),
{
    match outcome {
        Ok((success, stdout, stderr)) => {
            if success {
                CheckItem {
                    name: String::from_str("npm 源连通"),
                    ok: true,
                    detail: trimmed(stdout.as_str()),
                    critical: false,
                }
            } else {
                let e = trimmed(stderr.as_str());
                let detail = if e.as_str().is_empty() {
                    String::from_str("无法访问 npm 源")
                } else {
                    first_line_exec(e.as_str())
                };
                CheckItem { name: String::from_str("npm 源连通"), ok: false, detail, critical: false }
            }
        },
        Err(e) => CheckItem {
            name: String::from_str("npm 源连通"),
            ok: false,
            detail: String::from_str("检查失败：").concat(e.as_str()),
            critical: false,
        },
    }
}

/// All checks, in the order shown: Node.js, pnpm, writable root, disk, registry.
pub fn run_all(
    node: Option<String>,
    pnpm: Option<String>,
    root: &str,
    writable: Result<(), String>,
    free_mb: Option<u64>,
    registry: Result<(bool, String, String), String>,
) -> (r: Vec<CheckItem>)
    ensures
        r@.len() == 5,
        node_item(r@[0], opt_text(node)),
        pnpm_item(r@[1], opt_text(pnpm)),
        writable_item(r@[2], root@, writable),
        disk_item(r@[3], root@, free_mb),
        registry_item(r@[4], registry),
{
    let mut r: Vec<CheckItem> = Vec::new();
    r.push(check_node(node));
    r.push(check_pnpm(pnpm));
    r.push(check_writable(root, writable));
    r.push(check_disk(root, free_mb));
    r.push(check_registry(registry));
    r
}

/// The number that `s` spells, if `s` is a non-empty run of ASCII digits whose value fits
/// in a `u64`.
pub open spec fn digits_number(s: Seq<char>) -> Option<nat> {
    if s.len() > 0 && (forall|k: int| 0 <= k < s.len() ==> is_digit(#[trigger] s[k])) && decimal_value(s)
        <= u64::MAX {
        Some(decimal_value(s))
    } else {
        None
    }
}

/// The number that the characters `s` spell; see [`digits_number`].
fn digits_number_exec(s: &Vec<char>) -> (r: Option<u64>)
    ensures
        r is Some <==> digits_number(s@) is Some,
        r matches Some(n) ==> digits_number(s@) == Some(n as nat),
{
    let mut i: usize = 0;
    while i < s.len()
        invariant
            i <= s.len(),
            forall|k: int| 0 <= k < i ==> is_digit(#[trigger] s@[k]),
        decreases s.len() - i,
    {
        if !is_digit_char(s[i]) {
            assert(!is_digit(s@[i as int]));
            return None;
        }
        i += 1;
    }
    assert(s@.subrange(0, s.len() as int) =~= s@);
    parse_digits(s, 0, s.len(), 18446744073709551615u64)
}

/// The free space in MB from a byte count printed alone (white space around it allowed),
/// as PowerShell prints `DriveInfo.AvailableFreeSpace`.
pub open spec fn free_mb_from_bytes(out: Seq<char>) -> Option<nat> {
    match digits_number(trim(out)) {
        Some(b) => Some(b / 1048576),
        None => None,
    }
}

/// The free space in MB from PowerShell's byte count.
pub fn parse_free_bytes(out: &str) -> (r: Option<u64>)
    ensures
        r is Some <==> free_mb_from_bytes(out@) is Some,
        r matches Some(n) ==> free_mb_from_bytes(out@) == Some(n as nat),
{
    let t = chars_of(trimmed(out).as_str());
    match digits_number_exec(&t) {
        Some(b) => Some(b / 1048576),
        None => None,
    }
}

/// The field at the end of `s`: its longest suffix without white space.
pub open spec fn trailing_field(s: Seq<char>) -> Seq<char>
    decreases s.len(),
{
    if s.len() > 0 && !is_space(s.last()) {
        trailing_field(s.drop_last()).push(s.last())
    } else {
        Seq::empty()
    }
}

/// `f` as a one-element list if it is not empty, else nothing.
pub open spec fn nonempty_field(f: Seq<char>) -> Seq<Seq<char>> {
    if f.len() > 0 {
        seq![f]
    } else {
        Seq::empty()
    }
}

/// The fields of `s` that white space ends.
pub open spec fn closed_fields(s: Seq<char>) -> Seq<Seq<char>>
    decreases s.len(),
{
    if s.len() == 0 {
        Seq::empty()
    } else if !is_space(s.last()) {
        closed_fields(s.drop_last())
    } else {
        closed_fields(s.drop_last()) + nonempty_field(trailing_field(s.drop_last()))
    }
}

/// The fields of `s`: its maximal runs of characters other than white space, in order
/// (`str::split_whitespace`).
pub open spec fn fields(s: Seq<char>) -> Seq<Seq<char>> {
    closed_fields(s) + nonempty_field(trailing_field(s))
}

/// The fields of `s`.
pub fn fields_exec(s: &Vec<char>) -> (r: Vec<Vec<char>>)
    ensures
        rows(r@) == fields(s@),
{
    let mut out: Vec<Vec<char>> = Vec::new();
    let mut start: usize = 0;
    let mut i: usize = 0;
    assert(s@.take(0) =~= Seq::<char>::empty());
    assert(rows(out@) =~= Seq::<Seq<char>>::empty());
    while i < s.len()
        invariant
            start <= i <= s.len(),
            rows(out@) == closed_fields(s@.take(i as int)),
            s@.subrange(start as int, i as int) == trailing_field(s@.take(i as int)),
        decreases s.len() - i,
    {
        let ghost pre = s@.take(i as int);
        assert(s@.take(i + 1).drop_last() =~= pre);
        if !is_space_char(s[i]) {
            assert(s@.subrange(start as int, i + 1) =~= s@.subrange(start as int, i as int).push(
                s@[i as int],
            ));
        } else {
            let ghost before = rows(out@);
            if start < i {
                out.push(slice_chars(s, start, i));
                assert(rows(out@) =~= before + seq![s@.subrange(start as int, i as int)]);
            } else {
                assert(rows(out@) =~= before + Seq::<Seq<char>>::empty());
            }
            start = i + 1;
            assert(s@.subrange(start as int, i + 1) =~= Seq::<char>::empty());
        }
        i += 1;
    }
    assert(s@.take(s.len() as int) =~= s@);
    let ghost before = rows(out@);
    if start < s.len() {
        out.push(slice_chars(s, start, s.len()));
        assert(rows(out@) =~= before + seq![s@.subrange(start as int, s.len() as int)]);
    } else {
        assert(rows(out@) =~= before + Seq::<Seq<char>>::empty());
    }
    out
}

/// The free space in MB from the output of `df -Pk <root>`: the fourth field (available
/// kilobytes) of its second line, divided by 1024.
pub open spec fn free_mb_from_df(out: Seq<char>) -> Option<nat> {
    let ls = lines(out);
    if ls.len() >= 2 && fields(ls[1]).len() >= 4 {
        match digits_number(fields(ls[1])[3]) {
            Some(kb) => Some(kb / 1024),
            None => None,
        }
    } else {
        None
    }
}

/// The free space in MB from the output of `df -Pk <root>`.
pub fn parse_df_free(out: &str) -> (r: Option<u64>)
    ensures
        r is Some <==> free_mb_from_df(out@) is Some,
        r matches Some(n) ==> free_mb_from_df(out@) == Some(n as nat),
{
    let v = chars_of(out);
    let ls = lines_exec(&v);
    if ls.len() < 2 {
        return None;
    }
    assert(rows(ls@)[1] == ls@[1]@);
    let f = fields_exec(&ls[1]);
    if f.len() < 4 {
        return None;
    }
    assert(rows(f@)[3] == f@[3]@);
    match digits_number_exec(&f[3]) {
        Some(kb) => Some(kb / 1024),
        None => None,
    }
}

/// The arguments of `df` that report the free space at `root` in kilobytes.
pub fn df_args(root: &str) -> (r: Vec<String>)
    ensures
        strs(r@) == seq!["-Pk"@, root@],
{
    let mut r: Vec<String> = Vec::new();
    r.push(String::from_str("-Pk"));
    r.push(String::from_str(root));
    assert(strs(r@) =~= seq!["-Pk"@, root@]);
    r
}

/// The PowerShell command that prints the bytes free on the drive that holds `root`.
pub fn free_space_script(root: &str) -> (r: String)
    ensures
        r@ == "([System.IO.DriveInfo]::new([System.IO.Path]::GetPathRoot([System.IO.Path]::GetFullPath('"@
            + crate::launcher::ps_escaped(root@) + "')))).AvailableFreeSpace"@,
{
    let mut r = String::from_str(
        "([System.IO.DriveInfo]::new([System.IO.Path]::GetPathRoot([System.IO.Path]::GetFullPath('",
    );
    r.append(crate::launcher::escape_ps(root).as_str());
    r.append("')))).AvailableFreeSpace");
    r
}

} // verus!

