//! Drop-time diagnostic reports.
//!
//! When a narrowing call site's last reference-struct value is dropped, the
//! usage results collected under that call site are turned into one combined
//! warning message: the fields that were borrowed but never touched, the
//! fields that were borrowed mutably but only read, and a minimal borrow
//! list that would silence the warning. Field names are listed in
//! lexicographic order, mirroring an ordinary string sort.

use vstd::prelude::*;
use vstd::string::StrSliceExecFns;
use crate::capability::{Usage, usage_le};
use crate::tracking::{TrackingCtx, UsageResult};
use crate::warnings::{WarningSink, warning, warned};

verus! {

/// Lexicographic order on character sequences: by the first differing
/// character, with a prefix ordered before its extensions.
pub open spec fn lex_le(a: Seq<char>, b: Seq<char>) -> bool
    decreases a.len(),
{
    if a.len() == 0 {
        true
    } else if b.len() == 0 {
        false
    } else if a[0] == b[0] {
        lex_le(a.skip(1), b.skip(1))
    } else {
        (a[0] as int) < (b[0] as int)
    }
}

/// Decides the lexicographic order on two strings.
pub fn str_lex_le(a: &str, b: &str) -> (r: bool)
    ensures
        r == lex_le(a@, b@),
{
    let alen = a.unicode_len();
    let blen = b.unicode_len();
    let mut i: usize = 0;
    proof {
        assert(a@.skip(0) =~= a@);
        assert(b@.skip(0) =~= b@);
    }
    while i < alen && i < blen
        invariant
            i <= alen,
            i <= blen,
            alen == a@.len(),
            blen == b@.len(),
            lex_le(a@, b@) == lex_le(a@.skip(i as int), b@.skip(i as int)),
        decreases alen - i,
    {
        let ca = a.get_char(i);
        let cb = b.get_char(i);
        if ca != cb {
            return ca < cb;
        }
        proof {
            assert(a@.skip(i as int).skip(1) =~= a@.skip(i + 1));
            assert(b@.skip(i as int).skip(1) =~= b@.skip(i + 1));
        }
        i = i + 1;
    }
    proof {
        if i == alen {
            assert(a@.skip(i as int).len() == 0);
        } else {
            assert(b@.skip(i as int).len() == 0);
            assert(a@.skip(i as int).len() > 0);
        }
    }
    alen <= blen
}

/// The character sequences of a sequence of strings.
pub open spec fn views_of(v: Seq<String>) -> Seq<Seq<char>> {
    v.map_values(|s: String| s@)
}

/// Stable insertion of `x` into an already sorted sequence: `x` is placed
/// after every element ordered at or before it.
pub open spec fn insert_le(s: Seq<Seq<char>>, x: Seq<char>) -> Seq<Seq<char>>
    decreases s.len(),
{
    if s.len() == 0 {
        seq![x]
    } else if lex_le(s.last(), x) {
        s.push(x)
    } else {
        insert_le(s.drop_last(), x).push(s.last())
    }
}

/// Stable insertion sort by [`lex_le`].
pub open spec fn sort_labels(s: Seq<Seq<char>>) -> Seq<Seq<char>>
    decreases s.len(),
{
    if s.len() == 0 {
        s
    } else {
        insert_le(sort_labels(s.drop_last()), s.last())
    }
}

/// Where stable insertion places the new element: at index `j`, where
/// everything before `j` is ordered at or before `x` at the insertion
/// frontier, and everything from `j` on is strictly after `x`.
proof fn lemma_insert_le_at(s: Seq<Seq<char>>, x: Seq<char>, j: int)
    requires
        0 <= j <= s.len(),
        j == 0 || lex_le(s[j - 1], x),
        forall|k: int| j <= k < s.len() ==> !lex_le(s[k], x),
    ensures
        insert_le(s, x) =~= s.take(j) + seq![x] + s.skip(j),
    decreases s.len(),
{
    if s.len() == 0 {
        assert(insert_le(s, x) =~= s.take(j) + seq![x] + s.skip(j));
    } else if lex_le(s.last(), x) {
        assert(j == s.len());
        assert(insert_le(s, x) =~= s.take(j) + seq![x] + s.skip(j));
    } else {
        assert(j < s.len());
        lemma_insert_le_at(s.drop_last(), x, j);
        assert(s.drop_last().take(j) =~= s.take(j));
        assert(s.drop_last().skip(j).push(s.last()) =~= s.skip(j));
        assert(insert_le(s, x) =~= s.take(j) + seq![x] + s.skip(j));
    }
}

/// The lexicographic order is reflexive.
pub proof fn lemma_lex_le_refl(a: Seq<char>)
    ensures
        lex_le(a, a),
    decreases a.len(),
{
    if a.len() > 0 {
        lemma_lex_le_refl(a.skip(1));
    }
}

/// The lexicographic order is total: any two sequences are comparable.
pub proof fn lemma_lex_le_total(a: Seq<char>, b: Seq<char>)
    ensures
        lex_le(a, b) || lex_le(b, a),
    decreases a.len(),
{
    if a.len() > 0 && b.len() > 0 {
        if a[0] == b[0] {
            lemma_lex_le_total(a.skip(1), b.skip(1));
        }
    }
}


/// The lexicographic order is transitive.
pub proof fn lemma_lex_le_trans(a: Seq<char>, b: Seq<char>, c: Seq<char>)
    requires
        lex_le(a, b),
        lex_le(b, c),
    ensures
        lex_le(a, c),
    decreases a.len(),
{
    if a.len() > 0 {
        if a[0] == b[0] && b[0] == c[0] {
            lemma_lex_le_trans(a.skip(1), b.skip(1), c.skip(1));
        }
    }
}

/// Inserting below a bound stays below the bound.
proof fn lemma_insert_le_bound(s: Seq<Seq<char>>, x: Seq<char>, bound: Seq<char>)
    requires
        forall|i: int| 0 <= i < s.len() ==> lex_le(#[trigger] s[i], bound),
        lex_le(x, bound),
    ensures
        forall|i: int|
            0 <= i < insert_le(s, x).len() ==> lex_le(#[trigger] insert_le(s, x)[i], bound),
    decreases s.len(),
{
    if s.len() == 0 {
        assert forall|i: int| 0 <= i < insert_le(s, x).len() implies lex_le(
            insert_le(s, x)[i],
            bound,
        ) by {
            assert(insert_le(s, x)[i] == x);
        }
    } else if lex_le(s.last(), x) {
        assert forall|i: int| 0 <= i < insert_le(s, x).len() implies lex_le(
            insert_le(s, x)[i],
            bound,
        ) by {
            if i < s.len() {
                assert(insert_le(s, x)[i] == s[i]);
            } else {
                assert(insert_le(s, x)[i] == x);
            }
        }
    } else {
        assert forall|i: int| 0 <= i < s.drop_last().len() implies lex_le(
            s.drop_last()[i],
            bound,
        ) by {
            assert(s.drop_last()[i] == s[i]);
        }
        lemma_insert_le_bound(s.drop_last(), x, bound);
        let inner = insert_le(s.drop_last(), x);
        assert forall|i: int| 0 <= i < insert_le(s, x).len() implies lex_le(
            insert_le(s, x)[i],
            bound,
        ) by {
            if i < inner.len() {
                assert(insert_le(s, x)[i] == inner[i]);
                assert(lex_le(inner[i], bound));
            } else {
                assert(insert_le(s, x)[i] == s.last());
            }
        }
    }
}

/// Stable insertion into a sorted sequence keeps it sorted.
proof fn lemma_insert_le_keeps_sorted(s: Seq<Seq<char>>, x: Seq<char>)
    requires
        vstd::relations::sorted_by(s, |a: Seq<char>, b: Seq<char>| lex_le(a, b)),
    ensures
        vstd::relations::sorted_by(
            insert_le(s, x),
            (|a: Seq<char>, b: Seq<char>| lex_le(a, b)),
        ),
    decreases s.len(),
{
    let leq = |a: Seq<char>, b: Seq<char>| lex_le(a, b);
    if s.len() == 0 {
        assert(vstd::relations::sorted_by(insert_le(s, x), leq));
    } else if lex_le(s.last(), x) {
        let r = s.push(x);
        assert forall|i: int, j: int| 0 <= i < j < r.len() implies leq(r[i], r[j]) by {
            if j < s.len() {
                assert(leq(s[i], s[j]));
            } else {
                if i < s.len() - 1 {
                    assert(leq(s[i], s.last()));
                    lemma_lex_le_trans(s[i], s.last(), x);
                } else {
                    assert(r[i] == s.last());
                }
            }
        }
        assert(vstd::relations::sorted_by(r, leq));
    } else {
        lemma_lex_le_total(s.last(), x);
        assert(lex_le(x, s.last()));
        assert(vstd::relations::sorted_by(s.drop_last(), leq)) by {
            assert forall|i: int, j: int|
                0 <= i < j < s.drop_last().len() implies leq(s.drop_last()[i], s.drop_last()[j]) by {
                assert(leq(s[i], s[j]));
            }
        }
        lemma_insert_le_keeps_sorted(s.drop_last(), x);
        let inner = insert_le(s.drop_last(), x);
        assert forall|i: int| 0 <= i < s.drop_last().len() implies lex_le(
            s.drop_last()[i],
            s.last(),
        ) by {
            assert(leq(s[i], s[s.len() - 1]));
        }
        lemma_insert_le_bound(s.drop_last(), x, s.last());
        let r = inner.push(s.last());
        assert forall|i: int, j: int| 0 <= i < j < r.len() implies leq(r[i], r[j]) by {
            if j < inner.len() {
                assert(leq(inner[i], inner[j]));
            } else {
                assert(lex_le(inner[i], s.last()));
            }
        }
        assert(vstd::relations::sorted_by(r, leq));
    }
}

/// The report's name lists are in lexicographic order: sorting always
/// yields a sorted sequence.
pub proof fn lemma_sort_labels_sorted(s: Seq<Seq<char>>)
    ensures
        vstd::relations::sorted_by(
            sort_labels(s),
            (|a: Seq<char>, b: Seq<char>| lex_le(a, b)),
        ),
    decreases s.len(),
{
    if s.len() > 0 {
        lemma_sort_labels_sorted(s.drop_last());
        lemma_insert_le_keeps_sorted(sort_labels(s.drop_last()), s.last());
    }
}

/// Insertion grows a sequence by exactly one element.
pub proof fn lemma_insert_le_len(s: Seq<Seq<char>>, x: Seq<char>)
    ensures
        insert_le(s, x).len() == s.len() + 1,
    decreases s.len(),
{
    if s.len() > 0 && !lex_le(s.last(), x) {
        lemma_insert_le_len(s.drop_last(), x);
    }
}

/// Sorting keeps the number of elements.
pub proof fn lemma_sort_labels_len(s: Seq<Seq<char>>)
    ensures
        sort_labels(s).len() == s.len(),
    decreases s.len(),
{
    if s.len() > 0 {
        lemma_sort_labels_len(s.drop_last());
        lemma_insert_le_len(sort_labels(s.drop_last()), s.last());
    }
}

/// Inserts `x` into the sorted vector `acc`, keeping it sorted, stably.
fn insert_string(acc: &mut Vec<String>, x: String)
    ensures
        views_of(final(acc)@) =~= insert_le(views_of(old(acc)@), x@),
{
    let ghost s = views_of(old(acc)@);
    let mut j = acc.len();
    while j > 0 && !str_lex_le(acc[j - 1].as_str(), x.as_str())
        invariant
            j <= acc.len(),
            *acc == *old(acc),
            s == views_of(acc@),
            s.len() == acc@.len(),
            forall|k: int| 0 <= k < acc@.len() ==> s[k] == acc@[k]@,
            forall|k: int| j <= k < acc@.len() ==> !lex_le(s[k], x@),
        decreases j,
    {
        j = j - 1;
    }
    proof {
        lemma_insert_le_at(s, x@, j as int);
    }
    acc.insert(j, x);
    proof {
        assert(views_of(final(acc)@) =~= s.take(j as int) + seq![x@] + s.skip(j as int));
    }
}

/// Sorts the strings lexicographically with a stable insertion sort.
pub fn sort_strings(v: Vec<String>) -> (r: Vec<String>)
    ensures
        views_of(r@) =~= sort_labels(views_of(v@)),
{
    let mut v = v;
    let mut r: Vec<String> = Vec::new();
    proof {
        assert(views_of(r@) =~= sort_labels(views_of(v@).take(0)));
    }
    let n = v.len();
    let mut i: usize = 0;
    while i < n
        invariant
            i <= n,
            v@.len() == n,
            views_of(r@) =~= sort_labels(views_of(v@).take(i as int)),
            forall|k: int| 0 <= k < n ==> views_of(v@)[k] == v@[k]@,
        decreases n - i,
    {
        let ghost pre = views_of(v@).take(i as int);
        let x = clone_str(&v[i]);
        insert_string(&mut r, x);
        proof {
            assert(views_of(v@).take(i + 1).drop_last() =~= pre);
            assert(views_of(v@).take(i + 1).last() == v@[i as int]@);
        }
        i = i + 1;
    }
    proof {
        assert(views_of(v@).take(n as int) =~= views_of(v@));
    }
    r
}

/// Clones a string, keeping its characters.
fn clone_str(s: &String) -> (r: String)
    ensures
        r@ == s@,
{
    s.clone()
}

/// The character sequences of the keys of labelled usages.
pub open spec fn pair_views_of(v: Seq<(String, Usage)>) -> Seq<(Seq<char>, Usage)> {
    v.map_values(|p: (String, Usage)| (p.0@, p.1))
}

/// Stable insertion of a labelled usage by its label.
pub open spec fn insert_pair_le(s: Seq<(Seq<char>, Usage)>, x: (Seq<char>, Usage)) -> Seq<
    (Seq<char>, Usage),
>
    decreases s.len(),
{
    if s.len() == 0 {
        seq![x]
    } else if lex_le(s.last().0, x.0) {
        s.push(x)
    } else {
        insert_pair_le(s.drop_last(), x).push(s.last())
    }
}

/// Stable insertion sort of labelled usages by label.
pub open spec fn sort_pairs(s: Seq<(Seq<char>, Usage)>) -> Seq<(Seq<char>, Usage)>
    decreases s.len(),
{
    if s.len() == 0 {
        s
    } else {
        insert_pair_le(sort_pairs(s.drop_last()), s.last())
    }
}

/// Where stable insertion places a labelled usage.
proof fn lemma_insert_pair_le_at(s: Seq<(Seq<char>, Usage)>, x: (Seq<char>, Usage), j: int)
    requires
        0 <= j <= s.len(),
        j == 0 || lex_le(s[j - 1].0, x.0),
        forall|k: int| j <= k < s.len() ==> !lex_le(s[k].0, x.0),
    ensures
        insert_pair_le(s, x) =~= s.take(j) + seq![x] + s.skip(j),
    decreases s.len(),
{
    if s.len() == 0 {
        assert(insert_pair_le(s, x) =~= s.take(j) + seq![x] + s.skip(j));
    } else if lex_le(s.last().0, x.0) {
        assert(j == s.len());
        assert(insert_pair_le(s, x) =~= s.take(j) + seq![x] + s.skip(j));
    } else {
        assert(j < s.len());
        lemma_insert_pair_le_at(s.drop_last(), x, j);
        assert(s.drop_last().take(j) =~= s.take(j));
        assert(s.drop_last().skip(j).push(s.last()) =~= s.skip(j));
        assert(insert_pair_le(s, x) =~= s.take(j) + seq![x] + s.skip(j));
    }
}

/// Inserts a labelled usage into the sorted vector `acc`, stably.
fn insert_pair(acc: &mut Vec<(String, Usage)>, x: (String, Usage))
    ensures
        pair_views_of(final(acc)@) =~= insert_pair_le(pair_views_of(old(acc)@), (x.0@, x.1)),
{
    let ghost s = pair_views_of(old(acc)@);
    let mut j = acc.len();
    while j > 0 && !str_lex_le(acc[j - 1].0.as_str(), x.0.as_str())
        invariant
            j <= acc.len(),
            *acc == *old(acc),
            s == pair_views_of(acc@),
            s.len() == acc@.len(),
            forall|k: int| 0 <= k < acc@.len() ==> s[k] == (acc@[k].0@, acc@[k].1),
            forall|k: int| j <= k < acc@.len() ==> !lex_le(s[k].0, x.0@),
        decreases j,
    {
        j = j - 1;
    }
    proof {
        lemma_insert_pair_le_at(s, (x.0@, x.1), j as int);
    }
    acc.insert(j, x);
    proof {
        assert(pair_views_of(final(acc)@) =~= s.take(j as int) + seq![(x.0@, x.1)] + s.skip(
            j as int,
        ));
    }
}

/// Sorts labelled usages by label with a stable insertion sort.
pub fn sort_pair_vec(v: Vec<(String, Usage)>) -> (r: Vec<(String, Usage)>)
    ensures
        pair_views_of(r@) =~= sort_pairs(pair_views_of(v@)),
{
    let v = v;
    let mut r: Vec<(String, Usage)> = Vec::new();
    proof {
        assert(pair_views_of(r@) =~= sort_pairs(pair_views_of(v@).take(0)));
    }
    let n = v.len();
    let mut i: usize = 0;
    while i < n
        invariant
            i <= n,
            v@.len() == n,
            pair_views_of(r@) =~= sort_pairs(pair_views_of(v@).take(i as int)),
            forall|k: int| 0 <= k < n ==> pair_views_of(v@)[k] == (v@[k].0@, v@[k].1),
        decreases n - i,
    {
        let ghost pre = pair_views_of(v@).take(i as int);
        let x = (clone_str(&v[i].0), v[i].1);
        insert_pair(&mut r, x);
        proof {
            assert(pair_views_of(v@).take(i + 1).drop_last() =~= pre);
            assert(pair_views_of(v@).take(i + 1).last() == (v@[i as int].0@, v@[i as int].1));
        }
        i = i + 1;
    }
    proof {
        assert(pair_views_of(v@).take(n as int) =~= pair_views_of(v@));
    }
    r
}

/// The names of the fields that were borrowed but never touched, in entry
/// order.
pub open spec fn not_used_labels(entries: Seq<(String, UsageResult)>) -> Seq<Seq<char>>
    decreases entries.len(),
{
    if entries.len() == 0 {
        Seq::empty()
    } else {
        let pre = not_used_labels(entries.drop_last());
        let e = entries.last();
        if !usage_le(e.1.requested, e.1.needed) && e.1.needed is None {
            pre.push(e.0@)
        } else {
            pre
        }
    }
}

/// The names of the fields that were borrowed mutably but only read, in
/// entry order.
pub open spec fn used_as_ref_labels(entries: Seq<(String, UsageResult)>) -> Seq<Seq<char>>
    decreases entries.len(),
{
    if entries.len() == 0 {
        Seq::empty()
    } else {
        let pre = used_as_ref_labels(entries.drop_last());
        let e = entries.last();
        if !usage_le(e.1.requested, e.1.needed) && e.1.needed is Some {
            pre.push(e.0@)
        } else {
            pre
        }
    }
}

/// The fields that were actually used, each with the usage level that was
/// needed, in entry order.
pub open spec fn required_pairs(entries: Seq<(String, UsageResult)>) -> Seq<(Seq<char>, Usage)>
    decreases entries.len(),
{
    if entries.len() == 0 {
        Seq::empty()
    } else {
        let pre = required_pairs(entries.drop_last());
        let e = entries.last();
        match e.1.needed {
            Some(u) => pre.push((e.0@, u)),
            None => pre,
        }
    }
}

/// Collects the names of fields that were borrowed but never touched.
fn collect_not_used(entries: &Vec<(String, UsageResult)>) -> (r: Vec<String>)
    ensures
        views_of(r@) =~= not_used_labels(entries@),
{
    let mut r: Vec<String> = Vec::new();
    proof {
        assert(views_of(r@) =~= not_used_labels(entries@.take(0)));
    }
    let n = entries.len();
    let mut i: usize = 0;
    while i < n
        invariant
            i <= n,
            entries@.len() == n,
            views_of(r@) =~= not_used_labels(entries@.take(i as int)),
        decreases n - i,
    {
        let ghost pre = entries@.take(i as int);
        let e = &entries[i];
        if !crate::capability::usage_le_exec(e.1.requested, e.1.needed) && e.1.needed.is_none() {
            r.push(clone_str(&e.0));
        }
        proof {
            assert(entries@.take(i + 1).drop_last() =~= pre);
            assert(entries@.take(i + 1).last() == entries@[i as int]);
        }
        i = i + 1;
    }
    proof {
        assert(entries@.take(n as int) =~= entries@);
    }
    r
}

/// Collects the names of fields that were borrowed mutably but only read.
fn collect_used_as_ref(entries: &Vec<(String, UsageResult)>) -> (r: Vec<String>)
    ensures
        views_of(r@) =~= used_as_ref_labels(entries@),
{
    let mut r: Vec<String> = Vec::new();
    proof {
        assert(views_of(r@) =~= used_as_ref_labels(entries@.take(0)));
    }
    let n = entries.len();
    let mut i: usize = 0;
    while i < n
        invariant
            i <= n,
            entries@.len() == n,
            views_of(r@) =~= used_as_ref_labels(entries@.take(i as int)),
        decreases n - i,
    {
        let ghost pre = entries@.take(i as int);
        let e = &entries[i];
        if !crate::capability::usage_le_exec(e.1.requested, e.1.needed) && e.1.needed.is_some() {
            r.push(clone_str(&e.0));
        }
        proof {
            assert(entries@.take(i + 1).drop_last() =~= pre);
            assert(entries@.take(i + 1).last() == entries@[i as int]);
        }
        i = i + 1;
    }
    proof {
        assert(entries@.take(n as int) =~= entries@);
    }
    r
}

/// Collects the fields that were actually used, with their needed usage.
fn collect_required(entries: &Vec<(String, UsageResult)>) -> (r: Vec<(String, Usage)>)
    ensures
        pair_views_of(r@) =~= required_pairs(entries@),
{
    let mut r: Vec<(String, Usage)> = Vec::new();
    proof {
        assert(pair_views_of(r@) =~= required_pairs(entries@.take(0)));
    }
    let n = entries.len();
    let mut i: usize = 0;
    while i < n
        invariant
            i <= n,
            entries@.len() == n,
            pair_views_of(r@) =~= required_pairs(entries@.take(i as int)),
        decreases n - i,
    {
        let ghost pre = entries@.take(i as int);
        let e = &entries[i];
        if let Some(u) = e.1.needed {
            r.push((clone_str(&e.0), u));
        }
        proof {
            assert(entries@.take(i + 1).drop_last() =~= pre);
            assert(entries@.take(i + 1).last() == entries@[i as int]);
        }
        i = i + 1;
    }
    proof {
        assert(entries@.take(n as int) =~= entries@);
    }
    r
}

/// The items joined with `sep` between neighbours.
pub open spec fn join_sep(items: Seq<Seq<char>>, sep: Seq<char>) -> Seq<char>
    decreases items.len(),
{
    if items.len() == 0 {
        Seq::empty()
    } else if items.len() == 1 {
        items[0]
    } else {
        join_sep(items.drop_last(), sep) + sep + items.last()
    }
}

/// Joins the strings with a comma and a space between neighbours.
fn join_comma(items: &Vec<String>) -> (r: String)
    ensures
        r@ =~= join_sep(views_of(items@), ", "@),
{
    let mut r = String::new();
    proof {
        assert(r@ =~= join_sep(views_of(items@).take(0), ", "@));
    }
    let n = items.len();
    let mut i: usize = 0;
    while i < n
        invariant
            i <= n,
            items@.len() == n,
            r@ =~= join_sep(views_of(items@).take(i as int), ", "@),
            forall|k: int| 0 <= k < n ==> views_of(items@)[k] == items@[k]@,
        decreases n - i,
    {
        let ghost pre = views_of(items@).take(i as int);
        if i > 0 {
            r.append(", ");
        }
        r.append(items[i].as_str());
        proof {
            assert(views_of(items@).take(i + 1).drop_last() =~= pre);
            assert(views_of(items@).take(i + 1).last() == items@[i as int]@);
        }
        i = i + 1;
    }
    proof {
        assert(views_of(items@).take(n as int) =~= views_of(items@));
    }
    r
}

/// The borrow-list item suggested for one used field: its name, prefixed
/// with `mut ` where mutable access was needed.
pub open spec fn fix_item(p: (Seq<char>, Usage)) -> Seq<char> {
    if p.1 is Mut {
        "mut "@ + p.0
    } else {
        p.0
    }
}

/// The suggested borrow-list items for the used fields.
pub open spec fn fix_items(ps: Seq<(Seq<char>, Usage)>) -> Seq<Seq<char>> {
    ps.map_values(|p: (Seq<char>, Usage)| fix_item(p))
}

/// Builds the suggested borrow-list items.
fn build_fix_list(ps: &Vec<(String, Usage)>) -> (r: Vec<String>)
    ensures
        views_of(r@) =~= fix_items(pair_views_of(ps@)),
{
    let mut r: Vec<String> = Vec::new();
    proof {
        assert(views_of(r@) =~= fix_items(pair_views_of(ps@).take(0)));
        assert(fix_items(pair_views_of(ps@).take(0)) =~= fix_items(pair_views_of(ps@)).take(0));
    }
    let n = ps.len();
    let mut i: usize = 0;
    while i < n
        invariant
            i <= n,
            ps@.len() == n,
            views_of(r@) =~= fix_items(pair_views_of(ps@)).take(i as int),
            forall|k: int|
                0 <= k < n ==> pair_views_of(ps@)[k] == (ps@[k].0@, ps@[k].1)
                    && fix_items(pair_views_of(ps@))[k] == fix_item((ps@[k].0@, ps@[k].1)),
        decreases n - i,
    {
        let item = match ps[i].1 {
            Usage::Mut => {
                let mut s = ("mut ").to_owned();
                s.append(ps[i].0.as_str());
                s
            },
            Usage::Ref => clone_str(&ps[i].0),
        };
        let ghost prev = r@;
        proof {
            assert(item@ == fix_item((ps@[i as int].0@, ps@[i as int].1)));
        }
        r.push(item);
        proof {
            assert(views_of(r@) =~= views_of(prev).push(fix_item((ps@[i as int].0@, ps@[i as int].1))));
            assert(fix_items(pair_views_of(ps@)).take(i + 1) =~= fix_items(
                pair_views_of(ps@),
            ).take(i as int).push(fix_item((ps@[i as int].0@, ps@[i as int].1))));
            assert(views_of(r@) =~= fix_items(pair_views_of(ps@)).take(i + 1));
        }
        i = i + 1;
    }
    proof {
        assert(fix_items(pair_views_of(ps@)).take(n as int) =~= fix_items(pair_views_of(ps@)));
    }
    r
}

/// The combined warning for one call site, if any: the sorted lists of
/// over-borrowed fields, and the minimal borrow list that would fix them.
/// No warning is produced when nothing was over-borrowed, nor when no field
/// was used at all (the borrow then sits in conditional code, where an
/// unused-variable diagnostic already points at it).
pub open spec fn tracker_report(loc: Seq<char>, entries: Seq<(String, UsageResult)>) -> Option<
    Seq<char>,
> {
    let nu = sort_labels(not_used_labels(entries));
    let ur = sort_labels(used_as_ref_labels(entries));
    let body = (if nu.len() > 0 {
        "\n    "@ + "Borrowed but not used: "@ + join_sep(nu, ", "@) + "."@
    } else {
        Seq::<char>::empty()
    }) + (if ur.len() > 0 {
        "\n    "@ + "Borrowed as mut but used as ref: "@ + join_sep(ur, ", "@) + "."@
    } else {
        Seq::<char>::empty()
    });
    if body.len() > 0 && required_pairs(entries).len() > 0 {
        Some(
            "Warning ["@ + loc + "]:"@ + body + "\n    "@ + "To fix the issue, use: &<"@
                + join_sep(fix_items(sort_pairs(required_pairs(entries))), ", "@) + ">."@,
        )
    } else {
        None
    }
}

/// Entries without a discrepancy contribute no never-touched names.
proof fn lemma_no_discrepancy_not_used(entries: Seq<(String, UsageResult)>)
    requires
        forall|i: int|
            0 <= i < entries.len() ==> usage_le(
                (#[trigger] entries[i]).1.requested,
                entries[i].1.needed,
            ),
    ensures
        not_used_labels(entries).len() == 0,
    decreases entries.len(),
{
    if entries.len() > 0 {
        assert(forall|i: int|
            0 <= i < entries.drop_last().len() ==> #[trigger] entries.drop_last()[i]
                == entries[i]);
        lemma_no_discrepancy_not_used(entries.drop_last());
    }
}

/// Entries without a discrepancy contribute no only-read names.
proof fn lemma_no_discrepancy_used_as_ref(entries: Seq<(String, UsageResult)>)
    requires
        forall|i: int|
            0 <= i < entries.len() ==> usage_le(
                (#[trigger] entries[i]).1.requested,
                entries[i].1.needed,
            ),
    ensures
        used_as_ref_labels(entries).len() == 0,
    decreases entries.len(),
{
    if entries.len() > 0 {
        assert(forall|i: int|
            0 <= i < entries.drop_last().len() ==> #[trigger] entries.drop_last()[i]
                == entries[i]);
        lemma_no_discrepancy_used_as_ref(entries.drop_last());
    }
}

/// No discrepancy, no report: a call site under which every field observed
/// at least the usage that was requested for it reports nothing at all.
pub proof fn lemma_no_discrepancy_no_report(loc: Seq<char>, entries: Seq<(String, UsageResult)>)
    requires
        forall|i: int|
            0 <= i < entries.len() ==> usage_le(
                (#[trigger] entries[i]).1.requested,
                entries[i].1.needed,
            ),
    ensures
        tracker_report(loc, entries) is None,
{
    lemma_no_discrepancy_not_used(entries);
    lemma_no_discrepancy_used_as_ref(entries);
    lemma_sort_labels_len(not_used_labels(entries));
    lemma_sort_labels_len(used_as_ref_labels(entries));
}

/// The never-touched and only-read lists are inhabited exactly when some
/// entry shows less usage than was requested.
proof fn lemma_discrepancy_filter(entries: Seq<(String, UsageResult)>)
    ensures
        (not_used_labels(entries).len() + used_as_ref_labels(entries).len() > 0) <==> exists|i: int|
            0 <= i < entries.len() && !usage_le(
                (#[trigger] entries[i]).1.requested,
                entries[i].1.needed,
            ),
    decreases entries.len(),
{
    if entries.len() > 0 {
        assert(forall|i: int|
            0 <= i < entries.drop_last().len() ==> #[trigger] entries.drop_last()[i]
                == entries[i]);
        lemma_discrepancy_filter(entries.drop_last());
        let e = entries.last();
        if !usage_le(e.1.requested, e.1.needed) {
            assert(!usage_le(
                (entries[entries.len() - 1]).1.requested,
                entries[entries.len() - 1].1.needed,
            ));
        } else {
            if exists|i: int|
                0 <= i < entries.len() && !usage_le(
                    (#[trigger] entries[i]).1.requested,
                    entries[i].1.needed,
                ) {
                let i = choose|i: int|
                    0 <= i < entries.len() && !usage_le(
                        (#[trigger] entries[i]).1.requested,
                        entries[i].1.needed,
                    );
                assert(i < entries.len() - 1);
                assert(!usage_le(
                    (entries.drop_last()[i]).1.requested,
                    entries.drop_last()[i].1.needed,
                ));
            }
        }
    }
}

/// The used-fields list is inhabited exactly when some entry was used.
proof fn lemma_required_filter(entries: Seq<(String, UsageResult)>)
    ensures
        (required_pairs(entries).len() > 0) <==> exists|i: int|
            0 <= i < entries.len() && (#[trigger] entries[i]).1.needed is Some,
    decreases entries.len(),
{
    if entries.len() > 0 {
        assert(forall|i: int|
            0 <= i < entries.drop_last().len() ==> #[trigger] entries.drop_last()[i]
                == entries[i]);
        lemma_required_filter(entries.drop_last());
        let e = entries.last();
        if e.1.needed is Some {
            assert((entries[entries.len() - 1]).1.needed is Some);
        } else {
            if exists|i: int| 0 <= i < entries.len() && (#[trigger] entries[i]).1.needed is Some {
                let i = choose|i: int|
                    0 <= i < entries.len() && (#[trigger] entries[i]).1.needed is Some;
                assert(i < entries.len() - 1);
                assert((entries.drop_last()[i]).1.needed is Some);
            }
        }
    }
}

/// When a call site reports: exactly when some field under it was borrowed
/// more broadly than it was used, and at least one field under it was used
/// at all. An entirely idle borrow stays silent, as does one whose every
/// grant was exercised in full.
pub proof fn lemma_report_exactly_when(loc: Seq<char>, entries: Seq<(String, UsageResult)>)
    ensures
        tracker_report(loc, entries) is Some <==> ((exists|i: int|
            0 <= i < entries.len() && !usage_le(
                (#[trigger] entries[i]).1.requested,
                entries[i].1.needed,
            )) && (exists|i: int|
            0 <= i < entries.len() && (#[trigger] entries[i]).1.needed is Some)),
{
    lemma_discrepancy_filter(entries);
    lemma_required_filter(entries);
    lemma_sort_labels_len(not_used_labels(entries));
    lemma_sort_labels_len(used_as_ref_labels(entries));
    reveal_strlit("\n    ");
    assert("\n    "@.len() == 5);
}

/// Builds and records the drop-time report of call-site tracker `t`: one
/// combined warning message if any field under it was over-borrowed, and
/// nothing otherwise.
pub fn finish_tracker(ctx: &TrackingCtx, t: usize, sink: &mut WarningSink)
    requires
        t < ctx.trackers@.len(),
    ensures
        ({
            let rep = tracker_report(
                ctx.trackers@[t as int].loc@,
                ctx.trackers@[t as int].entries@,
            );
            match rep {
                Some(m) => {
                    &&& warned(*old(sink), *final(sink), m)
                    &&& old(sink).wf() ==> final(sink).wf()
                },
                None => *final(sink) == *old(sink),
            }
        }),
{
    let tr = &ctx.trackers[t];
    let not_used = collect_not_used(&tr.entries);
    let used_ref = collect_used_as_ref(&tr.entries);
    let ghost nu = sort_labels(not_used_labels(tr.entries@));
    let ghost ur = sort_labels(used_as_ref_labels(tr.entries@));
    let mut msg = String::new();
    if not_used.len() > 0 {
        let sorted = sort_strings(not_used);
        let joined = join_comma(&sorted);
        msg.append("\n    ");
        msg.append("Borrowed but not used: ");
        msg.append(joined.as_str());
        msg.append(".");
        proof {
            lemma_sort_labels_len(not_used_labels(tr.entries@));
            assert(nu.len() > 0);
            assert(msg@ =~= "\n    "@ + "Borrowed but not used: "@ + join_sep(nu, ", "@) + "."@);
        }
    } else {
        proof {
            lemma_sort_labels_len(not_used_labels(tr.entries@));
            assert(nu.len() == 0);
        }
    }
    let ghost body1 = msg@;
    if used_ref.len() > 0 {
        let sorted = sort_strings(used_ref);
        let joined = join_comma(&sorted);
        msg.append("\n    ");
        msg.append("Borrowed as mut but used as ref: ");
        msg.append(joined.as_str());
        msg.append(".");
        proof {
            lemma_sort_labels_len(used_as_ref_labels(tr.entries@));
            assert(ur.len() > 0);
            assert(msg@ =~= body1 + ("\n    "@ + "Borrowed as mut but used as ref: "@ + join_sep(
                ur,
                ", "@,
            ) + "."@));
        }
    } else {
        proof {
            lemma_sort_labels_len(used_as_ref_labels(tr.entries@));
            assert(ur.len() == 0);
        }
    }
    if !msg.as_str().is_empty() {
        let required = collect_required(&tr.entries);
        if required.len() > 0 {
            let sorted = sort_pair_vec(required);
            let fixes = build_fix_list(&sorted);
            let joined = join_comma(&fixes);
            msg.append("\n    ");
            msg.append("To fix the issue, use: &<");
            msg.append(joined.as_str());
            msg.append(">.");
            let mut full = String::new();
            full.append("Warning [");
            full.append(tr.loc.as_str());
            full.append("]:");
            full.append(msg.as_str());
            proof {
                let rep = tracker_report(ctx.trackers@[t as int].loc@, tr.entries@);
                assert(rep matches Some(m) && full@ =~= m);
            }
            warning(sink, full.as_str());
        }
    }
}

} // verus!
