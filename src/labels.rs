//! Label sets: a mapping from label name to value, held sorted by name.
use vstd::prelude::*;
use vstd::string::*;
use crate::text::{lex_lt, str_eq, str_lt, lemma_lex_irreflexive, lemma_lex_asymmetric,
    lemma_lex_total, lemma_lex_transitive};

verus! {

/// The mathematical form of a label set: (name, value) pairs.
pub type LabelsView = Seq<(Seq<char>, Seq<char>)>;

/// The names of a list of label names, as character sequences.
pub open spec fn names_view(names: Seq<String>) -> Seq<Seq<char>> {
    names.map_values(|s: String| s@)
}

/// Names strictly increase along the sequence (so each name occurs once).
pub open spec fn names_sorted(v: LabelsView) -> bool {
    forall|i: int, j: int| 0 <= i < j < v.len() ==> lex_lt(#[trigger] v[i].0, #[trigger] v[j].0)
}

/// The value of label `k`, if present.
pub open spec fn lookup(v: LabelsView, k: Seq<char>) -> Option<Seq<char>>
    decreases v.len(),
{
    if v.len() == 0 {
        None
    } else if v[0].0 == k {
        Some(v[0].1)
    } else {
        lookup(v.drop_first(), k)
    }
}

/// Set label `k` to `x` in a sorted label sequence: replaces the value of an
/// existing `k`, otherwise adds the pair where its name sorts.
pub open spec fn insert_label(v: LabelsView, k: Seq<char>, x: Seq<char>) -> LabelsView
    decreases v.len(),
{
    if v.len() == 0 {
        seq![(k, x)]
    } else if v[0].0 == k {
        v.update(0, (k, x))
    } else if lex_lt(k, v[0].0) {
        seq![(k, x)] + v
    } else {
        seq![v[0]] + insert_label(v.drop_first(), k, x)
    }
}

/// The labels of `v` whose name is listed in `names` (when `keep`), or is not
/// listed (when `!keep`), in their order.
pub open spec fn restrict(v: LabelsView, names: Seq<Seq<char>>, keep: bool) -> LabelsView
    decreases v.len(),
{
    if v.len() == 0 {
        seq![]
    } else {
        let rest = restrict(v.drop_last(), names, keep);
        if names.contains(v.last().0) == keep {
            rest.push(v.last())
        } else {
            rest
        }
    }
}

/// The name of the label that holds the metric name.
pub open spec fn metric_name_label() -> Seq<char> {
    "__name__"@
}

/// `base` with each attribute of non-empty value set in turn.
pub open spec fn with_attributes(base: LabelsView, attrs: LabelsView) -> LabelsView
    decreases attrs.len(),
{
    if attrs.len() == 0 {
        base
    } else {
        let prev = with_attributes(base, attrs.drop_last());
        let a = attrs.last();
        if a.1.len() == 0 {
            prev
        } else {
            insert_label(prev, a.0, a.1)
        }
    }
}

/// The labels of a stored row: the metric name, the service name when it is
/// not empty, then each attribute whose value is not empty.
pub open spec fn row_labels(metric: Seq<char>, service: Seq<char>, attrs: LabelsView) -> LabelsView {
    let base = seq![(metric_name_label(), metric)];
    let with_service = if service.len() == 0 {
        base
    } else {
        insert_label(base, "service_name"@, service)
    };
    with_attributes(with_service, attrs)
}

/// The view of a list of (name, value) string pairs.
pub open spec fn pairs_view(pairs: Seq<(String, String)>) -> LabelsView {
    pairs.map_values(|p: (String, String)| (p.0@, p.1@))
}

/// A single label.
pub struct Label {
    pub name: String,
    pub value: String,
}

impl View for Label {
    type V = (Seq<char>, Seq<char>);

    open spec fn view(&self) -> (Seq<char>, Seq<char>) {
        (self.name@, self.value@)
    }
}

impl Label {
    pub fn new(name: String, value: String) -> (r: Label)
        ensures
            r@ == (name@, value@),
    {
        Label { name, value }
    }

    /// A copy of the label.
    pub fn duplicate(&self) -> (r: Label)
        ensures
            r@ == self@,
    {
        Label { name: self.name.clone(), value: self.value.clone() }
    }
}

/// A set of labels, ordered by name, with each name at most once.
pub struct LabelSet {
    labels: Vec<Label>,
}

impl View for LabelSet {
    type V = LabelsView;

    closed spec fn view(&self) -> LabelsView {
        self.labels@.map_values(|l: Label| l@)
    }
}

proof fn lemma_insert_at(v: LabelsView, k: Seq<char>, x: Seq<char>, p: int)
    requires
        names_sorted(v),
        0 <= p <= v.len(),
        forall|i: int| 0 <= i < p ==> lex_lt(#[trigger] v[i].0, k),
        p == v.len() || !lex_lt(v[p].0, k),
    ensures
        p < v.len() && v[p].0 == k ==> insert_label(v, k, x) == v.update(p, (k, x)),
        !(p < v.len() && v[p].0 == k) ==> insert_label(v, k, x) == v.insert(p, (k, x)),
        p < v.len() && v[p].0 != k ==> lex_lt(k, v[p].0),
    decreases p,
{
    if p < v.len() && v[p].0 != k {
        lemma_lex_total(k, v[p].0);
    }
    if p == 0 {
        if v.len() == 0 {
            assert(v.insert(0, (k, x)) =~= seq![(k, x)]);
        } else if v[0].0 != k {
            assert(v.insert(0, (k, x)) =~= seq![(k, x)] + v);
        }
    } else {
        lemma_lex_irreflexive(k);
        lemma_lex_asymmetric(v[0].0, k);
        let w = v.drop_first();
        assert(names_sorted(w)) by {
            assert forall|i: int, j: int| 0 <= i < j < w.len() implies lex_lt(
                #[trigger] w[i].0,
                #[trigger] w[j].0,
            ) by {
                assert(w[i] == v[i + 1] && w[j] == v[j + 1]);
            }
        }
        assert forall|i: int| 0 <= i < p - 1 implies lex_lt(#[trigger] w[i].0, k) by {
            assert(w[i] == v[i + 1]);
        }
        lemma_insert_at(w, k, x, p - 1);
        if p < v.len() && v[p].0 == k {
            assert(seq![v[0]] + w.update(p - 1, (k, x)) =~= v.update(p, (k, x)));
        } else {
            assert(seq![v[0]] + w.insert(p - 1, (k, x)) =~= v.insert(p, (k, x)));
        }
    }
}

proof fn lemma_lookup_skip(v: LabelsView, k: Seq<char>, i: int)
    requires
        0 <= i < v.len(),
        v[i].0 != k,
    ensures
        lookup(v.skip(i), k) == lookup(v.skip(i + 1), k),
{
    assert(v.skip(i).drop_first() =~= v.skip(i + 1));
}

proof fn lemma_restrict_members(v: LabelsView, names: Seq<Seq<char>>, keep: bool)
    ensures
        forall|i: int|
            0 <= i < restrict(v, names, keep).len() ==> exists|j: int|
                0 <= j < v.len() && #[trigger] restrict(v, names, keep)[i] == v[j],
    decreases v.len(),
{
    if v.len() > 0 {
        let w = v.drop_last();
        lemma_restrict_members(w, names, keep);
        let r = restrict(v, names, keep);
        let rest = restrict(w, names, keep);
        assert forall|i: int| 0 <= i < r.len() implies exists|j: int|
            0 <= j < v.len() && #[trigger] r[i] == v[j] by {
            if i < rest.len() {
                let j = choose|j: int| 0 <= j < w.len() && rest[i] == w[j];
                assert(r[i] == v[j]);
            } else {
                assert(r[i] == v[v.len() - 1]);
            }
        }
    }
}

/// Restricting a sorted label sequence keeps it sorted.
pub proof fn lemma_restrict_sorted(v: LabelsView, names: Seq<Seq<char>>, keep: bool)
    requires
        names_sorted(v),
    ensures
        names_sorted(restrict(v, names, keep)),
    decreases v.len(),
{
    if v.len() > 0 {
        let w = v.drop_last();
        assert(names_sorted(w)) by {
            assert forall|i: int, j: int| 0 <= i < j < w.len() implies lex_lt(
                #[trigger] w[i].0,
                #[trigger] w[j].0,
            ) by {
                assert(w[i] == v[i] && w[j] == v[j]);
            }
        }
        lemma_restrict_sorted(w, names, keep);
        lemma_restrict_members(w, names, keep);
        let rest = restrict(w, names, keep);
        let r = restrict(v, names, keep);
        if names.contains(v.last().0) == keep {
            assert forall|i: int, j: int| 0 <= i < j < r.len() implies lex_lt(
                #[trigger] r[i].0,
                #[trigger] r[j].0,
            ) by {
                if j < rest.len() {
                    assert(r[i] == rest[i] && r[j] == rest[j]);
                } else {
                    let m = choose|m: int| 0 <= m < w.len() && rest[i] == w[m];
                    assert(r[i] == v[m]);
                    assert(r[j] == v[v.len() - 1]);
                }
            }
        }
    }
}

/// Whether `k` is one of `names`.
pub fn name_listed(names: &Vec<String>, k: &str) -> (r: bool)
    ensures
        r == names_view(names@).contains(k@),
{
    let n = names.len();
    let mut i: usize = 0;
    while i < n
        invariant
            i <= n,
            n == names@.len(),
            forall|j: int| 0 <= j < i ==> names@[j]@ != k@,
        decreases n - i,
    {
        if str_eq(names[i].as_str(), k) {
            assert(names_view(names@)[i as int] == k@);
            return true;
        }
        i += 1;
    }
    assert(!names_view(names@).contains(k@)) by {
        if names_view(names@).contains(k@) {
            let j = choose|j: int| 0 <= j < names_view(names@).len() && names_view(names@)[j] == k@;
            assert(names@[j]@ == k@);
        }
    }
    false
}

impl LabelSet {
    #[verifier::type_invariant]
    closed spec fn well_formed(&self) -> bool {
        names_sorted(self@)
    }

    /// The empty label set.
    pub fn new() -> (r: LabelSet)
        ensures
            r@ == Seq::<(Seq<char>, Seq<char>)>::empty(),
    {
        let r = LabelSet { labels: Vec::new() };
        assert(r@ =~= Seq::<(Seq<char>, Seq<char>)>::empty());
        r
    }

    pub fn len(&self) -> (r: usize)
        ensures
            r == self@.len(),
    {
        self.labels.len()
    }

    pub fn is_empty(&self) -> (r: bool)
        ensures
            r == (self@.len() == 0),
    {
        self.labels.len() == 0
    }

    /// The label at position `i` in name order.
    pub fn label(&self, i: usize) -> (r: &Label)
        requires
            i < self@.len(),
        ensures
            r@ == self@[i as int],
    {
        &self.labels[i]
    }

    /// A copy of the label set.
    pub fn duplicate(&self) -> (r: LabelSet)
        ensures
            r@ == self@,
    {
        proof {
            use_type_invariant(self);
        }
        let n = self.labels.len();
        let mut v: Vec<Label> = Vec::new();
        let mut i: usize = 0;
        while i < n
            invariant
                i <= n,
                n == self.labels@.len(),
                v@.len() == i,
                forall|j: int| 0 <= j < i ==> #[trigger] v@[j]@ == self.labels@[j]@,
            decreases n - i,
        {
            v.push(self.labels[i].duplicate());
            i += 1;
        }
        assert(v@.map_values(|l: Label| l@) =~= self@);
        LabelSet { labels: v }
    }

    /// The value of label `name`, if present.
    pub fn get(&self, name: &str) -> (r: Option<&String>)
        ensures
            r matches Some(x) ==> lookup(self@, name@) == Some(x@),
            r is None ==> lookup(self@, name@) is None,
    {
        let n = self.labels.len();
        let mut i: usize = 0;
        assert(self@.skip(0) =~= self@);
        while i < n
            invariant
                i <= n,
                n == self@.len(),
                lookup(self@, name@) == lookup(self@.skip(i as int), name@),
            decreases n - i,
        {
            if str_eq(self.labels[i].name.as_str(), name) {
                assert(self@.skip(i as int)[0] == self@[i as int]);
                return Some(&self.labels[i].value);
            }
            proof {
                lemma_lookup_skip(self@, name@, i as int);
            }
            i += 1;
        }
        None
    }

    /// Sets label `name` to `value`, replacing any earlier value.
    pub fn insert(&mut self, name: String, value: String)
        ensures
            final(self)@ == insert_label(old(self)@, name@, value@),
    {
        proof {
            use_type_invariant(&*self);
        }
        let ghost v0 = self@;
        let mut labels: Vec<Label> = Vec::new();
        std::mem::swap(&mut labels, &mut self.labels);
        assert(labels@.map_values(|l: Label| l@) == v0);
        let n = labels.len();
        let mut p: usize = 0;
        let mut stop = false;
        while !stop && p < n
            invariant
                p <= n,
                n == v0.len(),
                names_sorted(v0),
                labels@.map_values(|l: Label| l@) == v0,
                forall|i: int| 0 <= i < p ==> lex_lt(#[trigger] v0[i].0, name@),
                stop ==> p < n && !lex_lt(v0[p as int].0, name@),
            decreases n - p + (if stop { 0int } else { 1int }),
        {
            if str_lt(labels[p].name.as_str(), name.as_str()) {
                p += 1;
            } else {
                stop = true;
            }
        }
        proof {
            lemma_insert_at(v0, name@, value@, p as int);
        }
        if p < n && str_eq(labels[p].name.as_str(), name.as_str()) {
            labels.set(p, Label { name, value });
            assert(labels@.map_values(|l: Label| l@) =~= insert_label(v0, name@, value@));
        } else {
            let ghost k = name@;
            labels.insert(p, Label { name, value });
            assert(labels@.map_values(|l: Label| l@) =~= insert_label(v0, k, value@));
            assert(names_sorted(labels@.map_values(|l: Label| l@))) by {
                let w = labels@.map_values(|l: Label| l@);
                assert forall|i: int, j: int| 0 <= i < j < w.len() implies lex_lt(
                    #[trigger] w[i].0,
                    #[trigger] w[j].0,
                ) by {
                    if j < p {
                        assert(w[i] == v0[i] && w[j] == v0[j]);
                    } else if j == p {
                        assert(w[i] == v0[i]);
                    } else if i == p {
                        if j > p + 1 {
                            lemma_lex_transitive(k, v0[p as int].0, v0[j - 1].0);
                        }
                    } else if i < p {
                        assert(w[i] == v0[i] && w[j] == v0[j - 1]);
                        lemma_lex_transitive(v0[i].0, k, v0[p as int].0);
                        if j - 1 > p {
                            lemma_lex_transitive(v0[i].0, v0[p as int].0, v0[j - 1].0);
                        }
                    } else {
                        assert(w[i] == v0[i - 1] && w[j] == v0[j - 1]);
                    }
                }
            }
        }
        self.labels = labels;
    }

    /// The labels whose name is listed in `names` (when `keep`), or is not
    /// listed (when `!keep`).
    pub fn restricted(&self, names: &Vec<String>, keep: bool) -> (r: LabelSet)
        ensures
            r@ == restrict(self@, names_view(names@), keep),
    {
        proof {
            use_type_invariant(self);
        }
        let n = self.labels.len();
        let mut v: Vec<Label> = Vec::new();
        let mut i: usize = 0;
        while i < n
            invariant
                i <= n,
                n == self@.len(),
                names_sorted(self@),
                v@.map_values(|l: Label| l@) == restrict(
                    self@.subrange(0, i as int),
                    names_view(names@),
                    keep,
                ),
            decreases n - i,
        {
            let ghost before = v@.map_values(|l: Label| l@);
            assert(self@.subrange(0, i as int + 1).drop_last() =~= self@.subrange(0, i as int));
            if name_listed(names, self.labels[i].name.as_str()) == keep {
                v.push(self.labels[i].duplicate());
                assert(v@.map_values(|l: Label| l@) =~= before.push(self@[i as int]));
            }
            i += 1;
        }
        assert(self@.subrange(0, n as int) =~= self@);
        proof {
            lemma_restrict_sorted(self@, names_view(names@), keep);
        }
        LabelSet { labels: v }
    }

    /// Whether two label sets hold the same labels.
    pub fn same_as(&self, other: &LabelSet) -> (r: bool)
        ensures
            r == (self@ == other@),
    {
        let n = self.labels.len();
        if n != other.labels.len() {
            return false;
        }
        let mut i: usize = 0;
        while i < n
            invariant
                i <= n,
                n == self@.len(),
                n == other@.len(),
                self@.subrange(0, i as int) == other@.subrange(0, i as int),
            decreases n - i,
        {
            if !str_eq(self.labels[i].name.as_str(), other.labels[i].name.as_str())
                || !str_eq(self.labels[i].value.as_str(), other.labels[i].value.as_str()) {
                assert(self@[i as int] != other@[i as int]);
                return false;
            }
            i += 1;
            assert(self@.subrange(0, i as int) =~= self@.subrange(0, i - 1).push(self@[i - 1]));
            assert(other@.subrange(0, i as int) =~= other@.subrange(0, i - 1).push(other@[i - 1]));
        }
        assert(self@ =~= self@.subrange(0, n as int));
        assert(other@ =~= other@.subrange(0, n as int));
        true
    }
}

/// The label set of a stored row (metric name, service name, attributes).
pub fn build_label_set(
    metric_name: &str,
    service_name: &str,
    attributes: &Vec<(String, String)>,
) -> (r: LabelSet)
    ensures
        r@ == row_labels(metric_name@, service_name@, pairs_view(attributes@)),
{
    let mut labels = LabelSet::new();
    labels.insert(String::from_str("__name__"), String::from_str(metric_name));
    if service_name.unicode_len() != 0 {
        labels.insert(String::from_str("service_name"), String::from_str(service_name));
    }
    let ghost base = labels@;
    let n = attributes.len();
    let mut i: usize = 0;
    while i < n
        invariant
            i <= n,
            n == attributes@.len(),
            labels@ == with_attributes(base, pairs_view(attributes@).subrange(0, i as int)),
        decreases n - i,
    {
        let ghost prev = labels@;
        assert(pairs_view(attributes@).subrange(0, i as int + 1).drop_last()
            =~= pairs_view(attributes@).subrange(0, i as int));
        let (k, v) = &attributes[i];
        if v.as_str().unicode_len() != 0 {
            labels.insert(k.clone(), v.clone());
        }
        i += 1;
    }
    assert(pairs_view(attributes@).subrange(0, n as int) =~= pairs_view(attributes@));
    labels
}

} // verus!
