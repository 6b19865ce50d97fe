//! Installed versions: their order, the install progress stages, and the reports of
//! installing, uninstalling and isolating a version.

use vstd::prelude::*;
use vstd::string::StringExecFns;
use crate::paths::{join_path, path_join};
use crate::text::{
    chars_of, contains, contains_exec, decimal, decimal_exec, decimal_value, equal_text, is_digit,
    is_digit_char, list_contains, parse_digits, starts_with, starts_with_exec, strs, trim, trimmed,
};

verus! {

/// The number a run of digits gives when it fits in an `i64`, as a one-element list;
/// nothing otherwise.
pub open spec fn run_number(run: Seq<char>) -> Seq<int> {
    if run.len() > 0 && decimal_value(run) <= i64::MAX {
        seq![decimal_value(run) as int]
    } else {
        Seq::empty()
    }
}

/// The digits at the end of `s`, the longest such run.
pub open spec fn trailing_run(s: Seq<char>) -> Seq<char>
    decreases s.len(),
{
    if s.len() > 0 && is_digit(s.last()) {
        trailing_run(s.drop_last()).push(s.last())
    } else {
        Seq::empty()
    }
}

/// The numbers of the digit runs of `s` that a non-digit ends.
pub open spec fn closed_numbers(s: Seq<char>) -> Seq<int>
    decreases s.len(),
{
    if s.len() == 0 {
        Seq::empty()
    } else if is_digit(s.last()) {
        closed_numbers(s.drop_last())
    } else {
        closed_numbers(s.drop_last()) + run_number(trailing_run(s.drop_last()))
    }
}

/// The sort key of a version: the numbers of its maximal runs of ASCII digits, in
/// order; a run whose number does not fit in an `i64` is left out.
pub open spec fn version_key(s: Seq<char>) -> Seq<int> {
    closed_numbers(s) + run_number(trailing_run(s))
}

/// After a text that ends in a non-digit, the trailing digits are those of what follows.
proof fn lemma_trailing_run_after(x: Seq<char>, b: Seq<char>)
    requires
        x.len() > 0,
        !is_digit(x.last()),
    ensures
        trailing_run(x + b) == trailing_run(b),
    decreases b.len(),
{
    if b.len() == 0 {
        assert(x + b =~= x);
    } else {
        lemma_trailing_run_after(x, b.drop_last());
        assert((x + b).drop_last() =~= x + b.drop_last());
        assert((x + b).last() == b.last());
    }
}

/// After a text that ends in a non-digit, the closed runs are those of the text and then
/// those of what follows.
proof fn lemma_closed_numbers_after(x: Seq<char>, b: Seq<char>)
    requires
        x.len() > 0,
        !is_digit(x.last()),
    ensures
        closed_numbers(x + b) == closed_numbers(x) + closed_numbers(b),
    decreases b.len(),
{
    if b.len() == 0 {
        assert(x + b =~= x);
        assert(closed_numbers(x) + closed_numbers(b) =~= closed_numbers(x));
    } else {
        lemma_closed_numbers_after(x, b.drop_last());
        lemma_trailing_run_after(x, b.drop_last());
        assert((x + b).drop_last() =~= x + b.drop_last());
        assert((x + b).last() == b.last());
        if !is_digit(b.last()) {
            assert(closed_numbers(x) + closed_numbers(b) =~= closed_numbers(x) + closed_numbers(
                b.drop_last(),
            ) + run_number(trailing_run(b.drop_last())));
        }
    }
}

/// A run of digits closes no run and ends in itself.
proof fn lemma_digit_run(d: Seq<char>)
    requires
        forall|k: int| 0 <= k < d.len() ==> is_digit(#[trigger] d[k]),
    ensures
        closed_numbers(d) == Seq::<int>::empty(),
        trailing_run(d) == d,
    decreases d.len(),
{
    if d.len() > 0 {
        lemma_digit_run(d.drop_last());
        assert(is_digit(d[d.len() - 1]));
        assert(d.drop_last().push(d.last()) =~= d);
    }
}

/// The key of a version splits at every non-digit: the key of `a`, a non-digit, then `b`
/// is the key of `a` followed by the key of `b`. So `0.9.0-beta.1` has the key of `0`,
/// `9`, `0`, `beta` and `1` in turn.
pub proof fn law_version_key_splits(a: Seq<char>, sep: char, b: Seq<char>)
    requires
        !is_digit(sep),
    ensures
        version_key(a + seq![sep] + b) == version_key(a) + version_key(b),
{
    let x = a.push(sep);
    assert(a + seq![sep] + b =~= x + b);
    lemma_closed_numbers_after(x, b);
    lemma_trailing_run_after(x, b);
    assert(x.drop_last() =~= a);
    assert(closed_numbers(x) == closed_numbers(a) + run_number(trailing_run(a)));
    assert(version_key(a) + version_key(b) =~= closed_numbers(x) + closed_numbers(b) + run_number(
        trailing_run(b),
    ));
}

/// The key of a run of digits is its number, when that fits in an `i64`; the key of text
/// without digits is empty.
pub proof fn law_version_key_parts(d: Seq<char>)
    ensures
        (d.len() > 0 && (forall|k: int| 0 <= k < d.len() ==> is_digit(#[trigger] d[k])) && decimal_value(d)
            <= i64::MAX) ==> version_key(d) == seq![decimal_value(d) as int],
        (forall|k: int| 0 <= k < d.len() ==> !is_digit(#[trigger] d[k])) ==> version_key(d) == Seq::<
            int,
        >::empty(),
    decreases d.len(),
{
    if forall|k: int| 0 <= k < d.len() ==> is_digit(#[trigger] d[k]) {
        lemma_digit_run(d);
        assert(Seq::<int>::empty() + run_number(d) =~= run_number(d));
    }
    if d.len() > 0 && forall|k: int| 0 <= k < d.len() ==> !is_digit(#[trigger] d[k]) {
        law_version_key_parts(d.drop_last());
        assert forall|k: int| 0 <= k < d.drop_last().len() implies !is_digit(#[trigger] d.drop_last()[k]) by {
            assert(d.drop_last()[k] == d[k]);
        }
        assert(!is_digit(d[d.len() - 1]));
        assert(trailing_run(d) == Seq::<char>::empty());
        assert(trailing_run(d.drop_last()) == Seq::<char>::empty()) by {
            if d.len() > 1 {
                assert(!is_digit(d.drop_last()[d.len() - 2]));
            }
        }
        assert(run_number(Seq::<char>::empty()) =~= Seq::<int>::empty());
        assert(version_key(d) =~= Seq::<int>::empty());
    } else if d.len() == 0 {
        assert(version_key(d) =~= Seq::<int>::empty());
    }
}

/// The lexicographic order of two lists of numbers: -1, 0 or 1; a proper prefix comes
/// first.
pub open spec fn lex_order(a: Seq<int>, b: Seq<int>) -> int
    decreases a.len(),
{
    if a.len() == 0 && b.len() == 0 {
        0
    } else if a.len() == 0 {
        -1
    } else if b.len() == 0 {
        1
    } else if a[0] < b[0] {
        -1
    } else if a[0] > b[0] {
        1
    } else {
        lex_order(a.drop_first(), b.drop_first())
    }
}

/// The numbers of a list of `i64`.
pub open spec fn ints(v: Seq<i64>) -> Seq<int> {
    v.map_values(|x: i64| x as int)
}

/// The sort key of `s`.
pub fn version_key_exec(s: &str) -> (r: Vec<i64>)
    ensures
        ints(r@) == version_key(s@),
{
    let v = chars_of(s);
    let mut out: Vec<i64> = Vec::new();
    let mut start: usize = 0;
    let mut i: usize = 0;
    assert(v@.take(0) =~= Seq::<char>::empty());
    while i < v.len()
        invariant
            start <= i <= v.len(),
            v@ == s@,
            ints(out@) == closed_numbers(v@.take(i as int)),
            v@.subrange(start as int, i as int) == trailing_run(v@.take(i as int)),
            forall|k: int| start <= k < i ==> is_digit(#[trigger] v@[k]),
        decreases v.len() - i,
    {
        let ghost pre = v@.take(i as int);
        assert(v@.take(i + 1).drop_last() =~= pre);
        if is_digit_char(v[i]) {
            assert(v@.subrange(start as int, i + 1) =~= v@.subrange(start as int, i as int).push(
                v@[i as int],
            ));
        } else {
            let ghost before = out@;
            match parse_digits(&v, start, i, 9223372036854775807u64) {
                Some(n) => {
                    out.push(n as i64);
                    assert(ints(out@) =~= ints(before) + seq![n as int]);
                },
                None => {
                    assert(ints(out@) =~= ints(before) + Seq::<int>::empty());
                },
            }
            start = i + 1;
            assert(v@.subrange(start as int, i + 1) =~= Seq::<char>::empty());
        }
        i += 1;
    }
    assert(v@.take(v.len() as int) =~= v@);
    let ghost before = out@;
    match parse_digits(&v, start, v.len(), 9223372036854775807u64) {
        Some(n) => {
            out.push(n as i64);
            assert(ints(out@) =~= ints(before) + seq![n as int]);
        },
        None => {
            assert(ints(out@) =~= ints(before) + Seq::<int>::empty());
        },
    }
    out
}

/// The lexicographic order of two lists of `i64`.
fn lex_order_exec(a: &Vec<i64>, b: &Vec<i64>) -> (r: i8)
    ensures
        r == lex_order(ints(a@), ints(b@)),
{
    let mut i: usize = 0;
    assert(ints(a@).skip(0) =~= ints(a@));
    assert(ints(b@).skip(0) =~= ints(b@));
    loop
        invariant
            i <= a.len(),
            i <= b.len(),
            lex_order(ints(a@), ints(b@)) == lex_order(ints(a@).skip(i as int), ints(b@).skip(i as int)),
        decreases a.len() - i,
    {
        if i == a.len() && i == b.len() {
            return 0;
        } else if i == a.len() {
            return -1;
        } else if i == b.len() {
            return 1;
        } else if a[i] < b[i] {
            return -1;
        } else if a[i] > b[i] {
            return 1;
        }
        assert(ints(a@).skip(i as int).drop_first() =~= ints(a@).skip(i + 1));
        assert(ints(b@).skip(i as int).drop_first() =~= ints(b@).skip(i + 1));
        i += 1;
    }
}

/// Compares two versions by their numeric parts: the lists of numbers of their digit runs,
/// compared lexicographically.
pub fn version_cmp(a: &str, b: &str) -> (r: std::cmp::Ordering)
    ensures
        (r == std::cmp::Ordering::Less) == (lex_order(version_key(a@), version_key(b@)) < 0),
        (r == std::cmp::Ordering::Equal) == (lex_order(version_key(a@), version_key(b@)) == 0),
        (r == std::cmp::Ordering::Greater) == (lex_order(version_key(a@), version_key(b@)) > 0),
{
    let ka = version_key_exec(a);
    let kb = version_key_exec(b);
    let o = lex_order_exec(&ka, &kb);
    if o < 0 {
        std::cmp::Ordering::Less
    } else if o == 0 {
        std::cmp::Ordering::Equal
    } else {
        std::cmp::Ordering::Greater
    }
}

/// One installed version.
pub struct VersionInfo {
    /// The version, such as `0.1.5`.
    pub version: String,
    /// The absolute path of its directory.
    pub path: String,
    /// Whether it is the default version.
    pub is_default: bool,
    /// Whether its data is isolated.
    pub isolated: bool,
}

impl VersionInfo {
    /// A copy of this record.
    pub fn duplicate(&self) -> (r: Self)
        ensures
            r == *self,
    {
        VersionInfo {
            version: self.version.clone(),
            path: self.path.clone(),
            is_default: self.is_default,
            isolated: self.isolated,
        }
    }
}

/// The sort key of a version record.
pub open spec fn info_key(v: VersionInfo) -> Seq<int> {
    version_key(v.version@)
}

/// `x` inserted into `s` after every element whose key is not greater than its own.
pub open spec fn insert_sorted(s: Seq<VersionInfo>, x: VersionInfo) -> Seq<VersionInfo>
    decreases s.len(),
{
    if s.len() > 0 && lex_order(info_key(s.last()), info_key(x)) > 0 {
        insert_sorted(s.drop_last(), x).push(s.last())
    } else {
        s.push(x)
    }
}

/// `s` sorted by version key, stably: records with equal keys keep their order.
pub open spec fn sort_versions(s: Seq<VersionInfo>) -> Seq<VersionInfo>
    decreases s.len(),
{
    if s.len() == 0 {
        s
    } else {
        insert_sorted(sort_versions(s.drop_last()), s.last())
    }
}

/// Whether `a` sorts after `b`.
fn sorts_after(a: &VersionInfo, b: &VersionInfo) -> (r: bool)
    ensures
        r == (lex_order(info_key(*a), info_key(*b)) > 0),
{
    match version_cmp(a.version.as_str(), b.version.as_str()) {
        std::cmp::Ordering::Greater => true,
        _ => false,
    }
}

/// Inserting at the place after the last element not greater than `x` is `insert_sorted`.
proof fn lemma_insert_at(s: Seq<VersionInfo>, x: VersionInfo, p: int)
    requires
        0 <= p <= s.len(),
        forall|k: int| p <= k < s.len() ==> lex_order(info_key(#[trigger] s[k]), info_key(x)) > 0,
        p > 0 ==> lex_order(info_key(s[p - 1]), info_key(x)) <= 0,
    ensures
        insert_sorted(s, x) == s.insert(p, x),
    decreases s.len(),
{
    if s.len() > p {
        let t = s.drop_last();
        assert forall|k: int| p <= k < t.len() implies lex_order(info_key(#[trigger] t[k]), info_key(x)) > 0 by {
            assert(t[k] == s[k]);
        }
        if p > 0 {
            assert(t[p - 1] == s[p - 1]);
        }
        lemma_insert_at(t, x, p);
        assert(s.insert(p, x) =~= t.insert(p, x).push(s.last()));
    } else {
        assert(s.insert(p, x) =~= s.push(x));
    }
}

/// `items` sorted by version key, stably.
pub fn sort_by_version(items: &Vec<VersionInfo>) -> (r: Vec<VersionInfo>)
    ensures
        r@ == sort_versions(items@),
{
    let mut out: Vec<VersionInfo> = Vec::new();
    let mut i: usize = 0;
    while i < items.len()
        invariant
            i <= items.len(),
            out@ == sort_versions(items@.take(i as int)),
        decreases items.len() - i,
    {
        let x = items[i].duplicate();
        let mut p = out.len();
        while p > 0 && sorts_after(&out[p - 1], &x)
            invariant
                p <= out.len(),
                forall|k: int| p <= k < out.len() ==> lex_order(info_key(#[trigger] out@[k]), info_key(x)) > 0,
            decreases p,
        {
            p -= 1;
        }
        proof {
            lemma_insert_at(out@, x, p as int);
            assert(items@.take(i + 1).drop_last() =~= items@.take(i as int));
        }
        out.insert(p, x);
        i += 1;
    }
    assert(items@.take(items.len() as int) =~= items@);
    out
}

/// The record of the installed version `entry` (its name and its directory's path).
pub open spec fn info_for(
    entry: (String, String),
    default_version: Option<&str>,
    isolated: Seq<Seq<char>>,
) -> VersionInfo {
    VersionInfo {
        version: entry.0,
        path: entry.1,
        is_default: match default_version {
            Some(d) => d@ == entry.0@,
            None => false,
        },
        isolated: isolated.contains(entry.0@),
    }
}

/// The installed versions, from the entries `(name, path)` of the version directories
/// that hold `node_modules`: each marked default and isolated as the configuration says,
/// sorted by version.
pub fn list(entries: Vec<(String, String)>, default_version: Option<&str>, isolated: &[String]) -> (r: Vec<VersionInfo>)
    ensures
        r@ == sort_versions(
            entries@.map_values(|e: (String, String)| info_for(e, default_version, strs(isolated@))),
        ),
{
    let ghost made = entries@.map_values(|e: (String, String)| info_for(e, default_version, strs(isolated@)));
    let mut infos: Vec<VersionInfo> = Vec::new();
    let mut i: usize = 0;
    while i < entries.len()
        invariant
            i <= entries.len(),
            made == entries@.map_values(|e: (String, String)| info_for(e, default_version, strs(isolated@))),
            infos@ == made.take(i as int),
        decreases entries.len() - i,
    {
        let name = entries[i].0.clone();
        let path = entries[i].1.clone();
        let is_default = match default_version {
            Some(d) => equal_text(d, name.as_str()),
            None => false,
        };
        let is_isolated = list_contains(isolated, name.as_str());
        let info = VersionInfo { version: name, path, is_default, isolated: is_isolated };
        assert(info == made[i as int]);
        infos.push(info);
        assert(infos@ =~= made.take(i + 1));
        i += 1;
    }
    assert(made.take(entries.len() as int) =~= made);
    sort_by_version(&infos)
}

/// What `list` gives for `entries`, before it is handed out.
pub open spec fn listed(
    entries: Seq<(String, String)>,
    default_version: Option<&str>,
    isolated: Seq<Seq<char>>,
) -> Seq<VersionInfo> {
    sort_versions(entries.map_values(|e: (String, String)| info_for(e, default_version, isolated)))
}

/// Every listed record is one of the entries; it is marked default exactly when its name
/// is the configured default, and isolated exactly when its name is in the isolated list.
/// So all records marked default carry the same name.
pub proof fn law_list_marks(
    entries: Seq<(String, String)>,
    default_version: Option<&str>,
    isolated: Seq<Seq<char>>,
    i: int,
)
    requires
        0 <= i < listed(entries, default_version, isolated).len(),
    ensures
        listed(entries, default_version, isolated).len() == entries.len(),
        exists|k: int|
            0 <= k < entries.len() && (#[trigger] entries[k]).0 == listed(entries, default_version, isolated)[i].version
                && entries[k].1 == listed(entries, default_version, isolated)[i].path,
        listed(entries, default_version, isolated)[i].is_default <==> (default_version matches Some(d)
            && d@ == listed(entries, default_version, isolated)[i].version@),
        listed(entries, default_version, isolated)[i].isolated <==> isolated.contains(
            listed(entries, default_version, isolated)[i].version@,
        ),
{
    broadcast use vstd::seq_lib::group_to_multiset_ensures;

    let made = entries.map_values(|e: (String, String)| info_for(e, default_version, isolated));
    let r = sort_versions(made);
    law_sort_versions(made);
    assert(r.to_multiset().len() == made.to_multiset().len());
    assert(r.to_multiset().count(r[i]) > 0);
    assert(made.to_multiset().count(r[i]) > 0);
    assert(made.contains(r[i]));
    let k = choose|k: int| 0 <= k < made.len() && made[k] == r[i];
    assert(made[k] == info_for(entries[k], default_version, isolated));
}

/// Every list of numbers is in order with itself.
pub proof fn lemma_lex_reflexive(a: Seq<int>)
    ensures
        lex_order(a, a) == 0,
    decreases a.len(),
{
    if a.len() > 0 {
        lemma_lex_reflexive(a.drop_first());
    }
}

/// Swapping the lists negates their order.
pub proof fn lemma_lex_antisymmetric(a: Seq<int>, b: Seq<int>)
    ensures
        lex_order(a, b) == -lex_order(b, a),
    decreases a.len(),
{
    if a.len() > 0 && b.len() > 0 && a[0] == b[0] {
        lemma_lex_antisymmetric(a.drop_first(), b.drop_first());
    }
}

/// The order "not after" is transitive.
pub proof fn lemma_lex_transitive(a: Seq<int>, b: Seq<int>, c: Seq<int>)
    requires
        lex_order(a, b) <= 0,
        lex_order(b, c) <= 0,
    ensures
        lex_order(a, c) <= 0,
    decreases a.len(),
{
    if a.len() > 0 && b.len() > 0 && c.len() > 0 && a[0] == b[0] && b[0] == c[0] {
        lemma_lex_transitive(a.drop_first(), b.drop_first(), c.drop_first());
    }
}

/// The order of keys is decided at their first difference: where `a` and `b` agree on
/// their first `i` numbers and differ at `i`, the one with the greater number there comes
/// after the other, whatever the lengths of `a` and `b`.
pub proof fn law_lex_first_difference(a: Seq<int>, b: Seq<int>, i: int)
    requires
        0 <= i < a.len(),
        i < b.len(),
        forall|k: int| 0 <= k < i ==> a[k] == b[k],
        a[i] != b[i],
    ensures
        a[i] > b[i] ==> lex_order(a, b) == 1,
        a[i] < b[i] ==> lex_order(a, b) == -1,
    decreases i,
{
    if i > 0 {
        assert(a[0] == b[0]);
        let (a1, b1) = (a.drop_first(), b.drop_first());
        assert forall|k: int| 0 <= k < i - 1 implies a1[k] == b1[k] by {
            assert(a1[k] == a[k + 1] && b1[k] == b[k + 1]);
        }
        law_lex_first_difference(a1, b1, i - 1);
    }
}

/// A key that `b` extends comes before `b`, and keys are in order `Equal` only when they
/// are the same.
pub proof fn law_lex_prefix_first(a: Seq<int>, b: Seq<int>)
    ensures
        (a.len() < b.len() && b.take(a.len() as int) == a) ==> lex_order(a, b) == -1,
        lex_order(a, b) == 0 <==> a == b,
    decreases a.len(),
{
    if a.len() > 0 && b.len() > 0 {
        law_lex_prefix_first(a.drop_first(), b.drop_first());
        if a.len() < b.len() && b.take(a.len() as int) == a {
            assert(b.take(a.len() as int)[0] == b[0]);
            assert(b.drop_first().take(a.len() - 1) =~= a.drop_first());
        }
        if a[0] == b[0] && a.drop_first() == b.drop_first() {
            assert forall|k: int| 0 <= k < a.len() implies a[k] == b[k] by {
                if k > 0 {
                    assert(a[k] == a.drop_first()[k - 1] && b[k] == b.drop_first()[k - 1]);
                }
            }
            assert(a =~= b);
        }
        if a == b {
            assert(a.drop_first() =~= b.drop_first());
        }
    } else if a.len() == 0 && b.len() == 0 {
        assert(a =~= b);
    }
}

/// Comparing versions gives `Equal` for a version and itself.
pub proof fn law_version_order_reflexive(a: Seq<char>)
    ensures
        lex_order(version_key(a), version_key(a)) == 0,
{
    lemma_lex_reflexive(version_key(a));
}

/// Comparing `b` with `a` gives the opposite of comparing `a` with `b`.
pub proof fn law_version_order_antisymmetric(a: Seq<char>, b: Seq<char>)
    ensures
        lex_order(version_key(a), version_key(b)) == -lex_order(version_key(b), version_key(a)),
{
    lemma_lex_antisymmetric(version_key(a), version_key(b));
}

/// If `a` comes no later than `b` and `b` no later than `c`, then `a` comes no later
/// than `c`.
pub proof fn law_version_order_transitive(a: Seq<char>, b: Seq<char>, c: Seq<char>)
    requires
        lex_order(version_key(a), version_key(b)) <= 0,
        lex_order(version_key(b), version_key(c)) <= 0,
    ensures
        lex_order(version_key(a), version_key(c)) <= 0,
{
    lemma_lex_transitive(version_key(a), version_key(b), version_key(c));
}

/// No record comes after a later one.
pub open spec fn sorted_by_version(s: Seq<VersionInfo>) -> bool {
    forall|i: int, j: int|
        0 <= i < j < s.len() ==> lex_order(info_key(#[trigger] s[i]), info_key(#[trigger] s[j])) <= 0
}

/// Inserting into a sorted list keeps it sorted and adds exactly the one record.
proof fn lemma_insert_sorted(s: Seq<VersionInfo>, x: VersionInfo)
    requires
        sorted_by_version(s),
    ensures
        sorted_by_version(insert_sorted(s, x)),
        insert_sorted(s, x).to_multiset() == s.to_multiset().insert(x),
    decreases s.len(),
{
    broadcast use vstd::seq_lib::group_to_multiset_ensures;

    if s.len() > 0 && lex_order(info_key(s.last()), info_key(x)) > 0 {
        let d = s.drop_last();
        let l = s.last();
        assert(sorted_by_version(d)) by {
            assert forall|i: int, j: int| 0 <= i < j < d.len() implies lex_order(
                info_key(#[trigger] d[i]),
                info_key(#[trigger] d[j]),
            ) <= 0 by {
                assert(d[i] == s[i] && d[j] == s[j]);
            }
        }
        lemma_insert_sorted(d, x);
        let t = insert_sorted(d, x);
        assert(s =~= d.push(l));
        assert forall|i: int| 0 <= i < t.len() implies lex_order(info_key(#[trigger] t[i]), info_key(l))
            <= 0 by {
            assert(t.to_multiset().count(t[i]) > 0);
            if t[i] == x {
                lemma_lex_antisymmetric(info_key(l), info_key(x));
            } else {
                assert(d.to_multiset().count(t[i]) > 0);
                assert(d.contains(t[i]));
                let k = choose|k: int| 0 <= k < d.len() && d[k] == t[i];
                assert(s[k] == t[i]);
                assert(s[s.len() - 1] == l);
            }
        }
        assert forall|i: int, j: int| 0 <= i < j < t.push(l).len() implies lex_order(
            info_key(#[trigger] t.push(l)[i]),
            info_key(#[trigger] t.push(l)[j]),
        ) <= 0 by {
            if j < t.len() {
                assert(t.push(l)[i] == t[i] && t.push(l)[j] == t[j]);
            } else {
                assert(t.push(l)[i] == t[i] && t.push(l)[j] == l);
            }
        }
        assert(t.push(l).to_multiset() =~= s.to_multiset().insert(x));
    } else {
        if s.len() > 0 {
            assert forall|i: int, j: int| 0 <= i < j < s.push(x).len() implies lex_order(
                info_key(#[trigger] s.push(x)[i]),
                info_key(#[trigger] s.push(x)[j]),
            ) <= 0 by {
                if j < s.len() {
                    assert(s.push(x)[i] == s[i] && s.push(x)[j] == s[j]);
                } else {
                    assert(s.push(x)[i] == s[i] && s.push(x)[j] == x);
                    if i < s.len() - 1 {
                        assert(lex_order(info_key(s[i]), info_key(s[s.len() - 1])) <= 0);
                        lemma_lex_transitive(info_key(s[i]), info_key(s.last()), info_key(x));
                    }
                }
            }
        } else {
            assert(s.push(x) =~= seq![x]);
        }
    }
}

/// The installed-version list is in version order and holds exactly the records given,
/// each as many times as given.
pub proof fn law_sort_versions(s: Seq<VersionInfo>)
    ensures
        sorted_by_version(sort_versions(s)),
        sort_versions(s).to_multiset() == s.to_multiset(),
    decreases s.len(),
{
    broadcast use vstd::seq_lib::group_to_multiset_ensures;

    if s.len() > 0 {
        law_sort_versions(s.drop_last());
        lemma_insert_sorted(sort_versions(s.drop_last()), s.last());
        assert(s =~= s.drop_last().push(s.last()));
    } else {
        assert(s.to_multiset() =~= vstd::multiset::Multiset::empty());
    }
}

/// The stage announced when pnpm is being started.
pub fn starting_stage() -> (r: &'static str)
    ensures
        r@ == "正在启动 pnpm..."@,
{
    "正在启动 pnpm..."
}

/// The stage announced once pnpm has ended: "安装完成" after a success, nothing after a
/// failure.
pub fn completion_stage(succeeded: bool) -> (r: Option<&'static str>)
    ensures
        succeeded ==> (r matches Some(x) && x@ == "安装完成"@),
        !succeeded ==> r is None,
{
    if succeeded {
        Some("安装完成")
    } else {
        None
    }
}

/// The arguments of `pnpm` that install `version` into the current directory, with the
/// store, cache and state kept under the data root.
pub fn install_args(version: &str, store: &str, cache: &str, state: &str) -> (r: Vec<String>)
    ensures
        strs(r@) == seq![
            "add"@,
            "@deepseek-ai/dsh@"@ + version@,
            "--store-dir"@,
            store@,
            "--cache-dir"@,
            cache@,
            "--state-dir"@,
            state@,
            "--config.confirmModulesPurge=false"@,
            "--config.dangerouslyAllowAllBuilds=true"@,
        ],
{
    let mut r: Vec<String> = Vec::new();
    r.push(String::from_str("add"));
    r.push(install_package_spec(version));
    r.push(String::from_str("--store-dir"));
    r.push(String::from_str(store));
    r.push(String::from_str("--cache-dir"));
    r.push(String::from_str(cache));
    r.push(String::from_str("--state-dir"));
    r.push(String::from_str(state));
    r.push(String::from_str("--config.confirmModulesPurge=false"));
    r.push(String::from_str("--config.dangerouslyAllowAllBuilds=true"));
    assert(strs(r@) =~= seq![
        "add"@,
        "@deepseek-ai/dsh@"@ + version@,
        "--store-dir"@,
        store@,
        "--cache-dir"@,
        cache@,
        "--state-dir"@,
        state@,
        "--config.confirmModulesPurge=false"@,
        "--config.dangerouslyAllowAllBuilds=true"@,
    ]);
    r
}

/// The install stage that a line of pnpm's progress output announces, if any.
pub open spec fn stage_of(line: Seq<char>) -> Option<Seq<char>> {
    if contains(line, "resolved"@) && contains(line, "reused"@) {
        Some("正在解析依赖..."@)
    } else if starts_with(line, "Packages:"@) || contains(line, "Packages: +"@) {
        Some("正在计算依赖树..."@)
    } else if contains(line, "Progress: resolved"@) && contains(line, "downloaded"@) && !contains(
        line,
        "added"@,
    ) {
        Some("正在下载依赖包..."@)
    } else if contains(line, "Progress: resolved"@) && contains(line, "added"@) {
        Some("正在写入文件..."@)
    } else if contains(line, "node_modules/"@) && (contains(line, "postinstall"@) || contains(
        line,
        "preinstall"@,
    ) || contains(line, "install:"@)) {
        Some("正在构建原生模块..."@)
    } else if contains(line, "dependencies:"@) || contains(line, "+ @deepseek-ai/dsh"@) {
        Some("正在完成安装..."@)
    } else if contains(line, "Done in"@) {
        Some("安装完成"@)
    } else {
        None
    }
}

/// What each kind of pnpm output line announces, the earlier kinds taking precedence:
/// a line with "resolved" and "reused" the resolving stage; else one starting with
/// "Packages:" or holding "Packages: +" the dependency-tree stage; else one with
/// "Progress: resolved" the downloading stage while nothing is "added", and the
/// writing stage once something is; else a line about a package under "node_modules/"
/// running its "postinstall", "preinstall" or "install:" script the native-build stage;
/// else one holding "dependencies:" or "+ @deepseek-ai/dsh" the finishing stage; else
/// "Done in" completion; any other line nothing.
pub proof fn law_stage_lines(line: Seq<char>)
    ensures
        contains(line, "resolved"@) && contains(line, "reused"@) ==> stage_of(line) == Some(
            "正在解析依赖..."@,
        ),
        !contains(line, "reused"@) && (starts_with(line, "Packages:"@) || contains(line, "Packages: +"@))
            ==> stage_of(line) == Some("正在计算依赖树..."@),
        no_earlier_stage(line, 2) && contains(line, "Progress: resolved"@) && contains(line, "downloaded"@)
            && !contains(line, "added"@) ==> stage_of(line) == Some("正在下载依赖包..."@),
        no_earlier_stage(line, 2) && contains(line, "Progress: resolved"@) && contains(line, "added"@)
            ==> stage_of(line) == Some("正在写入文件..."@),
        no_earlier_stage(line, 3) && contains(line, "node_modules/"@) && (contains(line, "postinstall"@)
            || contains(line, "preinstall"@) || contains(line, "install:"@)) ==> stage_of(line) == Some(
            "正在构建原生模块..."@,
        ),
        no_earlier_stage(line, 4) && (contains(line, "dependencies:"@) || contains(
            line,
            "+ @deepseek-ai/dsh"@,
        )) ==> stage_of(line) == Some("正在完成安装..."@),
        no_earlier_stage(line, 5) && contains(line, "Done in"@) ==> stage_of(line) == Some("安装完成"@),
        no_earlier_stage(line, 5) && !contains(line, "Done in"@) ==> stage_of(line) is None,
{
}

/// The line shows none of the first `n` kinds of stage line: 1 resolving ("resolved"
/// with "reused"), 2 dependency tree ("Packages:" at the start, or "Packages: +"),
/// 3 progress ("Progress: resolved"), 4 native build (a "node_modules/" line with
/// "postinstall", "preinstall" or "install:"), 5 finishing ("dependencies:" or
/// "+ @deepseek-ai/dsh").
pub open spec fn no_earlier_stage(line: Seq<char>, n: int) -> bool {
    &&& n >= 1 ==> !(contains(line, "resolved"@) && contains(line, "reused"@))
    &&& n >= 2 ==> !starts_with(line, "Packages:"@) && !contains(line, "Packages: +"@)
    &&& n >= 3 ==> !contains(line, "Progress: resolved"@)
    &&& n >= 4 ==> !(contains(line, "node_modules/"@) && (contains(line, "postinstall"@) || contains(
        line,
        "preinstall"@,
    ) || contains(line, "install:"@)))
    &&& n >= 5 ==> !contains(line, "dependencies:"@) && !contains(line, "+ @deepseek-ai/dsh"@)
}

/// The install stage that a line of pnpm's progress output announces.
pub fn parse_stage(line: &str) -> (r: Option<&'static str>)
    ensures
        r is None <==> stage_of(line@) is None,
        r matches Some(x) ==> stage_of(line@) == Some(x@),
{
    let v = chars_of(line);
    if contains_exec(&v, "resolved") && contains_exec(&v, "reused") {
        return Some("正在解析依赖...");
    }
    if starts_with_exec(&v, "Packages:") || contains_exec(&v, "Packages: +") {
        return Some("正在计算依赖树...");
    }
    if contains_exec(&v, "Progress: resolved") && contains_exec(&v, "downloaded") && !contains_exec(
        &v,
        "added",
    ) {
        return Some("正在下载依赖包...");
    }
    if contains_exec(&v, "Progress: resolved") && contains_exec(&v, "added") {
        return Some("正在写入文件...");
    }
    if contains_exec(&v, "node_modules/") && (contains_exec(&v, "postinstall") || contains_exec(
        &v,
        "preinstall",
    ) || contains_exec(&v, "install:")) {
        return Some("正在构建原生模块...");
    }
    if contains_exec(&v, "dependencies:") || contains_exec(&v, "+ @deepseek-ai/dsh") {
        return Some("正在完成安装...");
    }
    if contains_exec(&v, "Done in") {
        return Some("安装完成");
    }
    None
}

/// One step of following the progress output: the stage to announce, if the line names
/// a stage other than the last one announced, and the last stage afterwards.
pub open spec fn stage_step(last: Seq<char>, line: Seq<char>) -> (Option<Seq<char>>, Seq<char>) {
    match stage_of(line) {
        Some(st) => if st == last {
            (None, last)
        } else {
            (Some(st), st)
        },
        None => (None, last),
    }
}

/// Follows pnpm's progress output and announces each stage once as it is entered.
pub struct StageTracker {
    last: String,
}

impl StageTracker {
    /// The last stage announced; empty before the first.
    pub closed spec fn last_stage(&self) -> Seq<char> {
        self.last@
    }

    /// A tracker that has announced nothing.
    pub fn new() -> (t: Self)
        ensures
            t.last_stage() == Seq::<char>::empty(),
    {
        StageTracker { last: String::new() }
    }

    /// Reads one line of output; returns the stage to announce, if any.
    pub fn observe(&mut self, line: &str) -> (r: Option<&'static str>)
        ensures
            (match r {
                Some(x) => Some(x@),
                None => None,
            }) == stage_step(old(self).last_stage(), line@).0,
            final(self).last_stage() == stage_step(old(self).last_stage(), line@).1,
    {
        match parse_stage(line) {
            Some(st) => {
                if equal_text(st, self.last.as_str()) {
                    None
                } else {
                    self.last = String::from_str(st);
                    Some(st)
                }
            },
            None => None,
        }
    }
}

/// A stage is announced only when it differs from the one before, and becomes the last
/// one; so the same line read twice in a row is announced at most once.
pub proof fn law_stage_announced_once(last: Seq<char>, line: Seq<char>)
    ensures
        stage_step(last, line).0 matches Some(x) ==> x != last && stage_step(last, line).1 == x,
        stage_step(stage_step(last, line).1, line).0 is Some ==> stage_step(last, line).0 is None,
{
}

/// The progress of an install: the stages announced so far and all of pnpm's output.
pub struct InstallProgress {
    tracker: StageTracker,
    collected: String,
}

impl InstallProgress {
    /// The last stage announced from the output.
    pub closed spec fn last_stage(&self) -> Seq<char> {
        self.tracker.last_stage()
    }

    /// The output read so far, each line followed by a line feed.
    pub closed spec fn output(&self) -> Seq<char> {
        self.collected@
    }

    /// Nothing read yet.
    pub fn new() -> (p: Self)
        ensures
            p.last_stage() == Seq::<char>::empty(),
            p.output() == Seq::<char>::empty(),
    {
        InstallProgress { tracker: StageTracker::new(), collected: String::new() }
    }

    /// Reads one line of pnpm's output; returns the stage to announce, if any.
    pub fn read_line(&mut self, line: &str) -> (r: Option<&'static str>)
        ensures
            (match r {
                Some(x) => Some(x@),
                None => None,
            }) == stage_step(old(self).last_stage(), line@).0,
            final(self).last_stage() == stage_step(old(self).last_stage(), line@).1,
            final(self).output() == old(self).output() + line@ + "\n"@,
    {
        self.collected.append(line);
        self.collected.append("\n");
        self.tracker.observe(line)
    }

    /// The report once pnpm has ended; see [`install_report`].
    pub fn report(&self, succeeded: bool, version: &str) -> (r: (bool, String))
        ensures
            r.0 == succeeded,
            succeeded ==> r.1@ == "已安装 "@ + version@,
            !succeeded ==> r.1@ == friendly_error_text(trim(self.output())),
    {
        install_report(succeeded, version, self.collected.as_str())
    }
}

/// The message for a failed install, from pnpm's output: a hint for an incompletely
/// published version or for a network failure, then the output itself.
pub open spec fn friendly_error_text(raw: Seq<char>) -> Seq<char> {
    if contains(raw, "ERR_PNPM_NO_MATCHING_VERSION"@) || contains(raw, "No matching version found"@) {
        "该版本在官方源上发布不完整（依赖子包缺失），无法安装。\n建议换一个版本重试。\n\n原始信息：\n"@ + raw
    } else if contains(raw, "ERR_PNPM_FETCH"@) || contains(raw, "UND_ERR"@) || contains(
        raw,
        "ETIMEDOUT"@,
    ) {
        "网络连接失败，请检查网络或稍后重试。\n\n原始信息：\n"@ + raw
    } else {
        "安装失败：\n"@ + raw
    }
}

/// The message for a failed install, from pnpm's output.
pub fn friendly_error(raw: &str) -> (r: String)
    ensures
        r@ == friendly_error_text(raw@),
{
    let v = chars_of(raw);
    let mut r = if contains_exec(&v, "ERR_PNPM_NO_MATCHING_VERSION") || contains_exec(
        &v,
        "No matching version found",
    ) {
        String::from_str(
            "该版本在官方源上发布不完整（依赖子包缺失），无法安装。\n建议换一个版本重试。\n\n原始信息：\n",
        )
    } else if contains_exec(&v, "ERR_PNPM_FETCH") || contains_exec(&v, "UND_ERR") || contains_exec(
        &v,
        "ETIMEDOUT",
    ) {
        String::from_str("网络连接失败，请检查网络或稍后重试。\n\n原始信息：\n")
    } else {
        String::from_str("安装失败：\n")
    };
    r.append(raw);
    r
}

/// The directory of an installed version.
pub fn version_dir(versions_dir: &str, version: &str) -> (r: String)
    ensures
        r@ == path_join(versions_dir@, version@),
{
    join_path(versions_dir, version)
}

/// The `node_modules` directory whose presence marks `version` as installed.
pub fn installed_marker(versions_dir: &str, version: &str) -> (r: String)
    ensures
        r@ == path_join(path_join(versions_dir@, version@), "node_modules"@),
{
    let d = join_path(versions_dir, version);
    join_path(d.as_str(), "node_modules")
}

/// The isolated `DSH_HOME` of `version`: `home` in its version directory.
pub fn isolated_home(versions_dir: &str, version: &str) -> (r: String)
    ensures
        r@ == path_join(path_join(versions_dir@, version@), "home"@),
{
    let d = join_path(versions_dir, version);
    join_path(d.as_str(), "home")
}

/// The minimal `package.json` written into a version directory before installing.
pub fn package_manifest(version: &str) -> (r: String)
    ensures
        r@ == "{\n  \"name\": \"dsh-"@ + version@ + "\",\n  \"private\": true,\n  \"version\": \"0.0.0\"\n}\n"@,
{
    let mut r = String::from_str("{\n  \"name\": \"dsh-");
    r.append(version);
    r.append("\",\n  \"private\": true,\n  \"version\": \"0.0.0\"\n}\n");
    r
}

/// The `.npmrc` written into a version directory: hoisted, flat `node_modules`, which
/// dsh's runtime resolves as Node does.
pub fn npmrc_content() -> (r: &'static str)
    ensures
        r@ == "node-linker=hoisted\n"@,
{
    "node-linker=hoisted\n"
}

/// The package that `pnpm add` installs for `version`.
pub fn install_package_spec(version: &str) -> (r: String)
    ensures
        r@ == "@deepseek-ai/dsh@"@ + version@,
{
    let mut r = String::from_str("@deepseek-ai/dsh@");
    r.append(version);
    r
}

/// A failed file-system operation: its message, and the operating system's error code
/// when there is one.
pub struct IoFailure {
    /// The error's text.
    pub message: String,
    /// The raw operating-system error code, if any.
    pub os_code: Option<i32>,
}

/// What stopped an install before pnpm ran to its end.
pub enum InstallFailure {
    /// The version already has `node_modules`.
    AlreadyInstalled,
    /// Its directory could not be created.
    CreateDir(String),
    /// `package.json` could not be written.
    WriteManifest(String),
    /// `.npmrc` could not be written.
    WriteNpmrc(String),
    /// pnpm could not be started.
    Spawn(String),
}

/// The message for an install that stopped early.
pub open spec fn install_failure_text(version: Seq<char>, f: InstallFailure) -> Seq<char> {
    match f {
        InstallFailure::AlreadyInstalled => "版本 "@ + version + " 已安装"@,
        InstallFailure::CreateDir(e) => "创建目录失败: "@ + e@,
        InstallFailure::WriteManifest(e) => "写入 package.json 失败: "@ + e@,
        InstallFailure::WriteNpmrc(e) => "写入 .npmrc 失败: "@ + e@,
        InstallFailure::Spawn(e) => "启动 pnpm 失败: "@ + e@,
    }
}

/// The report of an install that stopped early: never a success.
pub fn install_failure_report(version: &str, f: &InstallFailure) -> (r: (bool, String))
    ensures
        !r.0,
        r.1@ == install_failure_text(version@, *f),
{
    let msg = match f {
        InstallFailure::AlreadyInstalled => {
            let mut m = String::from_str("版本 ");
            m.append(version);
            m.append(" 已安装");
            m
        },
        InstallFailure::CreateDir(e) => String::from_str("创建目录失败: ").concat(e.as_str()),
        InstallFailure::WriteManifest(e) => String::from_str("写入 package.json 失败: ").concat(
            e.as_str(),
        ),
        InstallFailure::WriteNpmrc(e) => String::from_str("写入 .npmrc 失败: ").concat(e.as_str()),
        InstallFailure::Spawn(e) => String::from_str("启动 pnpm 失败: ").concat(e.as_str()),
    };
    (false, msg)
}

/// The report of an install once pnpm has ended: success, or the friendly message for
/// its trimmed output.
pub fn install_report(succeeded: bool, version: &str, collected: &str) -> (r: (bool, String))
    ensures
        r.0 == succeeded,
        succeeded ==> r.1@ == "已安装 "@ + version@,
        !succeeded ==> r.1@ == friendly_error_text(trim(collected@)),
{
    if succeeded {
        (true, String::from_str("已安装 ").concat(version))
    } else {
        let t = trimmed(collected);
        (false, friendly_error(t.as_str()))
    }
}

/// The hint added when removing a directory fails because a running process holds its
/// files (Windows' sharing violation, code 32).
pub open spec fn busy_hint(f: IoFailure, what: Seq<char>) -> Seq<char> {
    if f.os_code == Some(32i32) {
        "\n\n可能该版本的 dsh 进程正在运行，持有"@ + what + "。\n请先关闭对应的 dsh 窗口/终端，再重试。"@
    } else {
        Seq::empty()
    }
}

/// The hint for a failed removal.
fn busy_hint_exec(f: &IoFailure, what: &str) -> (r: String)
    ensures
        r@ == busy_hint(*f, what@),
{
    match f.os_code {
        Some(c) => {
            if c == 32 {
                let mut h = String::from_str("\n\n可能该版本的 dsh 进程正在运行，持有");
                h.append(what);
                h.append("。\n请先关闭对应的 dsh 窗口/终端，再重试。");
                h
            } else {
                String::new()
            }
        },
        None => String::new(),
    }
}

/// The report of uninstalling a version that is not there.
pub fn missing_version_report(version: &str) -> (r: (bool, String))
    ensures
        !r.0,
        r.1@ == "版本 "@ + version@ + " 不存在"@,
{
    let mut m = String::from_str("版本 ");
    m.append(version);
    m.append(" 不存在");
    (false, m)
}

/// The report of removing a version's directory.
pub fn uninstall_report(version: &str, outcome: &Result<(), IoFailure>) -> (r: (bool, String))
    ensures
        r.0 == outcome is Ok,
        outcome is Ok ==> r.1@ == "已卸载 "@ + version@,
        outcome matches Err(f) ==> r.1@ == "卸载失败: "@ + f.message@ + busy_hint(*f, "文件"@),
{
    match outcome {
        Ok(()) => (true, String::from_str("已卸载 ").concat(version)),
        Err(f) => {
            let mut m = String::from_str("卸载失败: ");
            m.append(f.message.as_str());
            let h = busy_hint_exec(f, "文件");
            m.append(h.as_str());
            (false, m)
        },
    }
}

/// The report of clearing isolated data that does not exist: nothing to do.
pub fn nothing_to_clear_report() -> (r: (bool, String))
    ensures
        r.0,
        r.1@ == "隔离目录不存在，无需清理"@,
{
    (true, String::from_str("隔离目录不存在，无需清理"))
}

/// The report of clearing a version's isolated data.
pub fn clear_isolated_report(version: &str, outcome: &Result<(), IoFailure>) -> (r: (bool, String))
    ensures
        r.0 == outcome is Ok,
        outcome is Ok ==> r.1@ == "已清理 "@ + version@ + " 的隔离数据"@,
        outcome matches Err(f) ==> r.1@ == "清理失败: "@ + f.message@ + busy_hint(*f, "数据文件"@),
{
    match outcome {
        Ok(()) => {
            let mut m = String::from_str("已清理 ");
            m.append(version);
            m.append(" 的隔离数据");
            (true, m)
        },
        Err(f) => {
            let mut m = String::from_str("清理失败: ");
            m.append(f.message.as_str());
            let h = busy_hint_exec(f, "数据文件");
            m.append(h.as_str());
            (false, m)
        },
    }
}

/// The report of copying the shared home into an isolated one: the number of files
/// copied, and the error that stopped the copy, if one did.
pub fn copy_shared_to_isolated(copied: u64, failure: Option<String>) -> (r: (bool, String, u64))
    ensures
        r.0 == failure is None,
        r.2 == copied,
        failure matches Some(e) ==> r.1@ == "复制失败: "@ + e@,
        failure is None ==> r.1@ == "已复制 "@ + decimal(copied as nat) + " 个文件"@,
{
    match failure {
        Some(e) => (false, String::from_str("复制失败: ").concat(e.as_str()), copied),
        None => {
            let mut m = String::from_str("已复制 ");
            let n = decimal_exec(copied);
            m.append(n.as_str());
            m.append(" 个文件");
            (true, m, copied)
        },
    }
}

/// The records of `s` whose sort key is `k`, in order.
pub open spec fn with_key(s: Seq<VersionInfo>, k: Seq<int>) -> Seq<VersionInfo>
    decreases s.len(),
{
    if s.len() == 0 {
        s
    } else if info_key(s.last()) == k {
        with_key(s.drop_last(), k).push(s.last())
    } else {
        with_key(s.drop_last(), k)
    }
}

/// Inserting `x` adds it last among the records of its own key and changes no other key's.
proof fn lemma_insert_sorted_stable(t: Seq<VersionInfo>, x: VersionInfo, k: Seq<int>)
    ensures
        with_key(insert_sorted(t, x), k) == (if info_key(x) == k {
            with_key(t, k).push(x)
        } else {
            with_key(t, k)
        }),
    decreases t.len(),
{
    if t.len() > 0 && lex_order(info_key(t.last()), info_key(x)) > 0 {
        let d = t.drop_last();
        let l = t.last();
        lemma_insert_sorted_stable(d, x, k);
        lemma_lex_reflexive(info_key(x));
        assert(insert_sorted(t, x).drop_last() == insert_sorted(d, x));
        assert(insert_sorted(t, x).last() == l);
        assert(t.drop_last() == d);
        if info_key(x) == k {
            assert(info_key(l) != k);
        }
    } else {
        assert(t.push(x).drop_last() =~= t);
    }
}

/// Sorting is stable: for every key, the records with that key come out in the order
/// they went in.
pub proof fn law_sort_is_stable(s: Seq<VersionInfo>, k: Seq<int>)
    ensures
        with_key(sort_versions(s), k) == with_key(s, k),
    decreases s.len(),
{
    if s.len() > 0 {
        law_sort_is_stable(s.drop_last(), k);
        lemma_insert_sorted_stable(sort_versions(s.drop_last()), s.last(), k);
    }
}

/// Two versions compare equal exactly when their sort keys are the same.
pub proof fn law_version_order_equal(a: Seq<char>, b: Seq<char>)
    ensures
        (lex_order(version_key(a), version_key(b)) == 0) <==> (version_key(a) == version_key(b)),
{
    lemma_lex_zero(version_key(a), version_key(b));
    lemma_lex_reflexive(version_key(a));
}

/// Order 0 means the same list.
proof fn lemma_lex_zero(a: Seq<int>, b: Seq<int>)
    ensures
        lex_order(a, b) == 0 ==> a == b,
    decreases a.len(),
{
    if a.len() > 0 && b.len() > 0 && a[0] == b[0] {
        lemma_lex_zero(a.drop_first(), b.drop_first());
        if lex_order(a, b) == 0 {
            assert(a =~= seq![a[0]] + a.drop_first());
            assert(b =~= seq![b[0]] + b.drop_first());
        }
    }
}

} // verus!

