//! Grouping of series by a derived label key, and top-k / bottom-k selection.
use vstd::prelude::*;
use crate::labels::{LabelSet, LabelsView, names_view, restrict};

verus! {

/// The key that `by` / `without` grouping gives a series: `without` keeps the
/// labels not listed, `by` keeps the listed ones, and no list at all puts every
/// series in one group.
pub open spec fn group_key(v: LabelsView, by: Seq<Seq<char>>, without: bool) -> LabelsView {
    if without {
        restrict(v, by, false)
    } else if by.len() == 0 {
        seq![]
    } else {
        restrict(v, by, true)
    }
}

/// The grouping key of a label set under a `by` (`without == false`) or
/// `without` label list.
pub fn build_group_key(labels: &LabelSet, by_labels: &Vec<String>, without: bool) -> (r: LabelSet)
    ensures
        r@ == group_key(labels@, names_view(by_labels@), without),
{
    if without {
        labels.restricted(by_labels, false)
    } else if by_labels.len() == 0 {
        LabelSet::new()
    } else {
        labels.restricted(by_labels, true)
    }
}

/// The partition of a list of series into groups of equal key.
pub struct Grouping {
    /// The key of each group, in order of first appearance.
    pub keys: Vec<LabelSet>,
    /// For each series, the index of its group.
    pub group_of: Vec<usize>,
}

/// `g` numbers the groups of `keys` by first appearance, one per distinct key.
pub open spec fn is_grouping(keys: Seq<LabelsView>, group_keys: Seq<LabelsView>, group_of: Seq<usize>) -> bool {
    &&& group_of.len() == keys.len()
    &&& forall|j: int| 0 <= j < keys.len() ==> {
        &&& #[trigger] group_of[j] < group_keys.len()
        &&& group_keys[group_of[j] as int] == keys[j]
    }
    &&& forall|a: int, b: int| 0 <= a < b < group_keys.len() ==> #[trigger] group_keys[a] != #[trigger] group_keys[b]
    &&& forall|a: int| 0 <= a < group_keys.len() ==> #[trigger] appears_first(group_of, a)
}

/// Group `a` has a member, and every series before its first member lies in
/// an earlier group.
pub open spec fn appears_first(group_of: Seq<usize>, a: int) -> bool {
    exists|j: int| 0 <= j < group_of.len() && #[trigger] group_of[j] == a
        && forall|m: int| 0 <= m < j ==> #[trigger] group_of[m] < a
}

/// Some series before position `j` lies in group `c`.
pub open spec fn occurs_before(go: Seq<usize>, j: int, c: int) -> bool {
    exists|m: int| 0 <= m < j && go[m] == c
}

proof fn lemma_new_key_numbering(keys: Seq<LabelsView>, gk: Seq<LabelsView>, go: Seq<usize>, j: int)
    requires
        is_grouping(keys, gk, go),
        0 <= j < keys.len(),
        forall|m: int| 0 <= m < j ==> keys[m] != keys[j],
    ensures
        forall|m: int| 0 <= m < j ==> go[m] < go[j],
        forall|c: int| 0 <= c < go[j] ==> #[trigger] occurs_before(go, j, c),
{
    let a = go[j] as int;
    assert forall|m: int| 0 <= m < j implies go[m] != a by {
        if go[m] == a {
            assert(keys[m] == gk[a] && keys[j] == gk[a]);
        }
    }
    assert(appears_first(go, a));
    let j1 = choose|j1: int| 0 <= j1 < go.len() && #[trigger] go[j1] == a && forall|m: int| 0 <= m < j1 ==> #[trigger] go[m] < a;
    if j1 > j {
        assert(go[j] < a);
    }
    if j1 < j {
        assert(go[j1] != a);
    }
    assert forall|c: int| 0 <= c < a implies #[trigger] occurs_before(go, j, c) by {
        assert(appears_first(go, c));
        let jc = choose|jc: int| 0 <= jc < go.len() && #[trigger] go[jc] == c && forall|m: int| 0 <= m < jc ==> #[trigger] go[m] < c;
        if jc > j {
            assert(go[j] < c);
        }
        assert(jc != j);
        assert(go[jc] == c);
    }
}

proof fn lemma_grouping_agrees_upto(keys: Seq<LabelsView>, gk1: Seq<LabelsView>, go1: Seq<usize>, gk2: Seq<LabelsView>, go2: Seq<usize>, j: int)
    requires
        is_grouping(keys, gk1, go1),
        is_grouping(keys, gk2, go2),
        0 <= j < keys.len(),
    ensures
        forall|m: int| 0 <= m <= j ==> go1[m] == go2[m],
    decreases j,
{
    if j > 0 {
        lemma_grouping_agrees_upto(keys, gk1, go1, gk2, go2, j - 1);
    }
    if exists|m: int| 0 <= m < j && keys[m] == keys[j] {
        let m = choose|m: int| 0 <= m < j && keys[m] == keys[j];
        // a repeated key stays in the group of its earlier occurrence
        assert(gk1[go1[m] as int] == gk1[go1[j] as int]);
        assert(gk2[go2[m] as int] == gk2[go2[j] as int]);
        if go1[m] != go1[j] {
            assert(gk1[go1[m] as int] != gk1[go1[j] as int]);
        }
        if go2[m] != go2[j] {
            assert(gk2[go2[m] as int] != gk2[go2[j] as int]);
        }
    } else {
        lemma_new_key_numbering(keys, gk1, go1, j);
        lemma_new_key_numbering(keys, gk2, go2, j);
        if go1[j] < go2[j] {
            assert(occurs_before(go2, j, go1[j] as int));
            let m = choose|m: int| 0 <= m < j && go2[m] == go1[j] as int;
            assert(go1[m] < go1[j]);
        } else if go2[j] < go1[j] {
            assert(occurs_before(go1, j, go2[j] as int));
            let m = choose|m: int| 0 <= m < j && go1[m] == go2[j] as int;
            assert(go2[m] < go2[j]);
        }
    }
}

/// Grouping is determined by its input: two groupings of the same keys
/// that both number groups by first appearance are equal, so evaluating the
/// same aggregation again forms the same groups in the same order.
pub proof fn lemma_grouping_unique(keys: Seq<LabelsView>, gk1: Seq<LabelsView>, go1: Seq<usize>, gk2: Seq<LabelsView>, go2: Seq<usize>)
    requires
        is_grouping(keys, gk1, go1),
        is_grouping(keys, gk2, go2),
    ensures
        gk1 == gk2,
        go1 == go2,
{
    if keys.len() > 0 {
        lemma_grouping_agrees_upto(keys, gk1, go1, gk2, go2, keys.len() - 1);
    }
    assert(go1 =~= go2);
    assert forall|a: int| 0 <= a < gk1.len() implies a < gk2.len() && gk1[a] == gk2[a] by {
        assert(appears_first(go1, a));
        let j = choose|j: int| 0 <= j < go1.len() && #[trigger] go1[j] == a && forall|m: int| 0 <= m < j ==> #[trigger] go1[m] < a;
        assert(go2[j] == a);
        assert(gk1[a] == keys[j] && gk2[a] == keys[j]);
    }
    if gk1.len() < gk2.len() {
        let a = gk1.len() as int;
        assert(appears_first(go2, a));
        let j = choose|j: int| 0 <= j < go2.len() && #[trigger] go2[j] == a && forall|m: int| 0 <= m < j ==> #[trigger] go2[m] < a;
        assert(go1[j] == a);
    } else if gk2.len() < gk1.len() {
        let a = gk2.len() as int;
        assert(appears_first(go1, a));
        let j = choose|j: int| 0 <= j < go1.len() && #[trigger] go1[j] == a && forall|m: int| 0 <= m < j ==> #[trigger] go1[m] < a;
        assert(go2[j] == a);
    }
    assert(gk1 =~= gk2);
}

/// The views of a list of label sets.
pub open spec fn label_sets_view(v: Seq<LabelSet>) -> Seq<LabelsView> {
    v.map_values(|l: LabelSet| l@)
}

/// The positions `j` with `group_of[j] == a`, ascending.
pub open spec fn members_of(group_of: Seq<usize>, a: usize) -> Seq<usize>
    decreases group_of.len(),
{
    if group_of.len() == 0 {
        seq![]
    } else {
        let rest = members_of(group_of.drop_last(), a);
        if group_of.last() == a {
            rest.push((group_of.len() - 1) as usize)
        } else {
            rest
        }
    }
}

/// Splits series, given by their keys, into groups of equal key.
pub fn group_series(keys: &Vec<LabelSet>) -> (r: Grouping)
    ensures
        is_grouping(label_sets_view(keys@), label_sets_view(r.keys@), r.group_of@),
{
    let n = keys.len();
    let mut group_keys: Vec<LabelSet> = Vec::new();
    let mut group_of: Vec<usize> = Vec::new();
    let mut i: usize = 0;
    while i < n
        invariant
            i <= n,
            n == keys@.len(),
            is_grouping(
                label_sets_view(keys@).subrange(0, i as int),
                label_sets_view(group_keys@),
                group_of@,
            ),
        decreases n - i,
    {
        let ghost ks = label_sets_view(keys@).subrange(0, i as int);
        let ghost gk = label_sets_view(group_keys@);
        let ghost go = group_of@;
        let g = group_keys.len();
        let mut a: usize = 0;
        let mut found = false;
        while a < g && !found
            invariant
                a <= g,
                i < n,
                n == keys@.len(),
                g == group_keys@.len(),
                found ==> a < g && group_keys@[a as int]@ == keys@[i as int]@,
                !found ==> forall|b: int| 0 <= b < a ==> group_keys@[b]@ != keys@[i as int]@,
            decreases g - a + (if found { 0int } else { 1int }),
        {
            if group_keys[a].same_as(&keys[i]) {
                found = true;
            } else {
                a += 1;
            }
        }
        let ghost ks2 = label_sets_view(keys@).subrange(0, i as int + 1);
        assert(ks2 =~= ks.push(keys@[i as int]@));
        if found {
            group_of.push(a);
            assert(is_grouping(ks2, gk, group_of@)) by {
                assert forall|b: int| 0 <= b < gk.len() implies #[trigger] appears_first(group_of@, b) by {
                    assert(appears_first(go, b));
                    let j = choose|j: int| 0 <= j < go.len() && #[trigger] go[j] == b && forall|m: int|
                        0 <= m < j ==> #[trigger] go[m] < b;
                    assert(group_of@[j] == b);
                    assert forall|m: int| 0 <= m < j implies #[trigger] group_of@[m] < b by {
                        assert(group_of@[m] == go[m]);
                    }
                }
            }
        } else {
            group_keys.push(keys[i].duplicate());
            group_of.push(g);
            let ghost gk2 = label_sets_view(group_keys@);
            assert(gk2 =~= gk.push(keys@[i as int]@));
            assert(is_grouping(ks2, gk2, group_of@)) by {
                assert forall|b: int| 0 <= b < gk2.len() implies #[trigger] appears_first(group_of@, b) by {
                    if b < g {
                        assert(appears_first(go, b));
                        let j = choose|j: int| 0 <= j < go.len() && #[trigger] go[j] == b && forall|m: int|
                            0 <= m < j ==> #[trigger] go[m] < b;
                        assert(group_of@[j] == b);
                        assert forall|m: int| 0 <= m < j implies #[trigger] group_of@[m] < b by {
                            assert(group_of@[m] == go[m]);
                        }
                    } else {
                        assert(group_of@[i as int] == b);
                        assert forall|m: int| 0 <= m < i implies #[trigger] group_of@[m] < b by {
                            assert(group_of@[m] == go[m]);
                        }
                    }
                }
                assert forall|a1: int, b1: int| 0 <= a1 < b1 < gk2.len() implies #[trigger] gk2[a1]
                    != #[trigger] gk2[b1] by {
                    if b1 == g {
                        assert(group_keys@[a1]@ != keys@[i as int]@);
                    }
                }
            }
        }
        i += 1;
    }
    assert(label_sets_view(keys@).subrange(0, n as int) =~= label_sets_view(keys@));
    Grouping { keys: group_keys, group_of }
}

impl Grouping {
    /// The positions of the series in group `a`, ascending.
    pub fn members(&self, a: usize) -> (r: Vec<usize>)
        ensures
            r@ == members_of(self.group_of@, a),
    {
        let n = self.group_of.len();
        let mut r: Vec<usize> = Vec::new();
        let mut i: usize = 0;
        while i < n
            invariant
                i <= n,
                n == self.group_of@.len(),
                r@ == members_of(self.group_of@.subrange(0, i as int), a),
            decreases n - i,
        {
            assert(self.group_of@.subrange(0, i as int + 1).drop_last()
                =~= self.group_of@.subrange(0, i as int));
            if self.group_of[i] == a {
                r.push(i);
            }
            i += 1;
        }
        assert(self.group_of@.subrange(0, n as int) =~= self.group_of@);
        r
    }
}

/// Position `i` is ranked before position `j`: a higher key for top-k (a lower
/// one for bottom-k), and on equal keys the earlier position.
pub open spec fn ranks_before(keys: Seq<i64>, top: bool, i: int, j: int) -> bool {
    if keys[i] == keys[j] {
        i < j
    } else if top {
        keys[i] > keys[j]
    } else {
        keys[i] < keys[j]
    }
}

/// Among the positions below `n`, `r` lists best first the `min(k, n)`
/// best-ranked ones.
pub open spec fn selects(keys: Seq<i64>, n: int, k: nat, top: bool, r: Seq<usize>) -> bool {
    &&& r.len() == if k < n { k as int } else { n }
    &&& forall|x: int| 0 <= x < r.len() ==> #[trigger] r[x] < n
    &&& forall|x: int, y: int| 0 <= x < y < r.len() ==> ranks_before(keys, top, #[trigger] r[x] as int, #[trigger] r[y] as int)
    &&& forall|x: int, i: int| 0 <= x < r.len() && 0 <= i < n && !r.contains(i as usize)
        ==> #[trigger] ranks_before(keys, top, r[x] as int, i)
}

/// `r` lists, best first, the `min(k, n)` best-ranked positions of `keys`.
pub open spec fn is_selection(keys: Seq<i64>, k: nat, top: bool, r: Seq<usize>) -> bool {
    selects(keys, keys.len() as int, k, top, r)
}

/// `old_r` with `j` inserted at `p`, cut to `k` entries.
pub open spec fn insert_cut(old_r: Seq<usize>, p: int, j: usize, k: nat) -> Seq<usize> {
    let r1 = old_r.insert(p, j);
    if r1.len() > k { r1.subrange(0, k as int) } else { r1 }
}

proof fn lemma_select_step(keys: Seq<i64>, k: nat, top: bool, old_r: Seq<usize>, j: usize, p: int)
    requires
        0 < k,
        j < keys.len(),
        selects(keys, j as int, k, top, old_r),
        old_r.len() < k ==> forall|i: int| 0 <= i < j ==> #[trigger] old_r.contains(i as usize),
        0 <= p <= old_r.len(),
        forall|x: int| 0 <= x < p ==> ranks_before(keys, top, #[trigger] old_r[x] as int, j as int),
        p < old_r.len() ==> !ranks_before(keys, top, old_r[p] as int, j as int),
    ensures
        selects(keys, j + 1, k, top, insert_cut(old_r, p, j, k)),
        insert_cut(old_r, p, j, k).len() < k ==> forall|i: int| 0 <= i < j + 1 ==> #[trigger] insert_cut(old_r, p, j, k).contains(i as usize),
{
    let l = old_r;
    let r1 = l.insert(p, j);
    let r = if r1.len() > k { r1.subrange(0, k as int) } else { r1 };
    assert forall|z: int| 0 <= z < r.len() implies #[trigger] r[z] == (if z < p { l[z] } else if z == p { j } else { l[z - 1] }) by {}
    // j precedes every entry from position p on
    assert forall|y: int| p <= y < l.len() implies #[trigger] ranks_before(keys, top, j as int, l[y] as int) by {
        if y > p {
            assert(ranks_before(keys, top, l[p] as int, l[y] as int));
        }
    }
    assert forall|x: int, y: int| 0 <= x < y < r.len() implies ranks_before(keys, top, #[trigger] r[x] as int, #[trigger] r[y] as int) by {
        if x < p && y < p {
            assert(ranks_before(keys, top, l[x] as int, l[y] as int));
        } else if x < p && y > p {
            assert(ranks_before(keys, top, l[x] as int, l[y - 1] as int));
        } else if x == p && y > p {
            assert(ranks_before(keys, top, j as int, l[y - 1] as int));
        } else if x > p {
            assert(ranks_before(keys, top, l[x - 1] as int, l[y - 1] as int));
        }
    }
    assert forall|x: int, i: int| 0 <= x < r.len() && 0 <= i < j + 1 && !r.contains(i as usize)
        implies #[trigger] ranks_before(keys, top, r[x] as int, i) by {
        if i == j {
            if p < r.len() {
                assert(r[p] == j);
            }
            assert(r[x] == l[x]);
        } else if l.contains(i as usize) {
            let w = choose|w: int| 0 <= w < l.len() && l[w] == i as usize;
            if w < p {
                assert(r1[w] == i as usize);
                if w < r.len() {
                    assert(r[w] == i as usize);
                }
                assert(ranks_before(keys, top, l[x] as int, l[w] as int));
            } else {
                assert(r1[w + 1] == i as usize);
                if w + 1 < r.len() {
                    assert(r[w + 1] == i as usize);
                }
                if x > p {
                    assert(ranks_before(keys, top, l[x - 1] as int, l[w] as int));
                } else if x == p {
                    assert(ranks_before(keys, top, j as int, l[w] as int));
                } else {
                    assert(ranks_before(keys, top, l[x] as int, l[w] as int));
                }
            }
        } else {
            assert(l.len() == k);
            if x == p {
                assert(ranks_before(keys, top, l[p] as int, i));
            } else if x > p {
                assert(ranks_before(keys, top, l[x - 1] as int, i));
            } else {
                assert(ranks_before(keys, top, l[x] as int, i));
            }
        }
    }
    if r.len() < k {
        assert forall|i: int| 0 <= i < j + 1 implies #[trigger] r.contains(i as usize) by {
            if i == j {
                assert(r[p] == j);
            } else {
                assert(l.contains(i as usize));
                let w = choose|w: int| 0 <= w < l.len() && l[w] == i as usize;
                if w < p {
                    assert(r[w] == i as usize);
                } else {
                    assert(r[w + 1] == i as usize);
                }
            }
        }
    }
}

/// Top-k and bottom-k selection is determined by its inputs: two lists that
/// both select the best `k` positions of the same keys are equal, so
/// evaluating the same selection again gives the same series.
pub proof fn lemma_selection_unique(keys: Seq<i64>, k: nat, top: bool, r1: Seq<usize>, r2: Seq<usize>)
    requires
        is_selection(keys, k, top, r1),
        is_selection(keys, k, top, r2),
    ensures
        r1 == r2,
{
    assert forall|x: int| 0 <= x < r1.len() implies r1[x] == r2[x] by {
        lemma_selection_agrees_upto(keys, k, top, r1, r2, x);
    }
    assert(r1 =~= r2);
}

proof fn lemma_selection_agrees_upto(keys: Seq<i64>, k: nat, top: bool, r1: Seq<usize>, r2: Seq<usize>, x: int)
    requires
        is_selection(keys, k, top, r1),
        is_selection(keys, k, top, r2),
        0 <= x < r1.len(),
    ensures
        r1[x] == r2[x],
    decreases x,
{
    if x > 0 {
        lemma_selection_agrees_upto(keys, k, top, r1, r2, x - 1);
    }
    assert forall|y: int| 0 <= y < x implies r1[y] == r2[y] by {
        if y < x - 1 {
            lemma_selection_agrees_upto(keys, k, top, r1, r2, y);
        }
    }
    let a = r1[x];
    let b = r2[x];
    if a != b {
        // b precedes a in r2's order
        if r2.contains(a) {
            let y = choose|y: int| 0 <= y < r2.len() && r2[y] == a;
            if y < x {
                assert(r1[y] == a);
                assert(ranks_before(keys, top, r1[y] as int, r1[x] as int));
            }
            assert(y != x);
            assert(ranks_before(keys, top, r2[x] as int, r2[y] as int));
        } else {
            assert(ranks_before(keys, top, r2[x] as int, a as int));
        }
        // a precedes b in r1's order
        if r1.contains(b) {
            let y = choose|y: int| 0 <= y < r1.len() && r1[y] == b;
            if y < x {
                assert(r2[y] == b);
                assert(ranks_before(keys, top, r2[y] as int, r2[x] as int));
            }
            assert(y != x);
            assert(ranks_before(keys, top, r1[x] as int, r1[y] as int));
        } else {
            assert(ranks_before(keys, top, r1[x] as int, b as int));
        }
    }
}

/// The positions of the `k` highest (`top`) or lowest (`!top`) keys, best
/// first; equal keys are taken in input order.
pub fn select_k(keys: &Vec<i64>, k: usize, top: bool) -> (r: Vec<usize>)
    ensures
        is_selection(keys@, k as nat, top, r@),
{
    let n = keys.len();
    let mut r: Vec<usize> = Vec::new();
    if k == 0 {
        return r;
    }
    let mut j: usize = 0;
    while j < n
        invariant
            0 < k,
            j <= n,
            n == keys@.len(),
            selects(keys@, j as int, k as nat, top, r@),
            r@.len() < k ==> forall|i: int| 0 <= i < j ==> #[trigger] r@.contains(i as usize),
        decreases n - j,
    {
        let ghost r0 = r@;
        let m = r.len();
        let mut p: usize = 0;
        let mut stop = false;
        while !stop && p < m
            invariant
                p <= m,
                m == r@.len(),
                r@ == r0,
                j < n,
                n == keys@.len(),
                forall|x: int| 0 <= x < r@.len() ==> #[trigger] r@[x] < j,
                forall|x: int| 0 <= x < p ==> ranks_before(keys@, top, #[trigger] r@[x] as int, j as int),
                stop ==> p < m && !ranks_before(keys@, top, r@[p as int] as int, j as int),
            decreases m - p + (if stop { 0int } else { 1int }),
        {
            let c = r[p];
            let beats = if keys[c] == keys[j] {
                c < j
            } else if top {
                keys[c] > keys[j]
            } else {
                keys[c] < keys[j]
            };
            if beats {
                p += 1;
            } else {
                stop = true;
            }
        }
        proof {
            lemma_select_step(keys@, k as nat, top, r0, j, p as int);
        }
        r.insert(p, j);
        if r.len() > k {
            r.truncate(k);
        }
        assert(r@ == insert_cut(r0, p as int, j, k as nat)) by {
            if r0.insert(p as int, j).len() > k {
                assert(r@ =~= r0.insert(p as int, j).subrange(0, k as int));
            }
        }
        j += 1;
    }
    r
}

} // verus!
