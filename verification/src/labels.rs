//! Operator-assigned metadata on a node: a map from string keys to string
//! values.  Keys are unique; insertion order carries no meaning, so equality
//! of two label collections is equality of the maps they denote.

use vstd::prelude::*;
use vstd::set_lib::lemma_subset_equality;

verus! {

/// One labelling as a sequence of key/value pairs, by view.
pub type LabelSeq = Seq<(Seq<char>, Seq<char>)>;

/// No two pairs of the sequence share a key.
pub open spec fn unique_keys(s: LabelSeq) -> bool {
    forall|i: int, j: int| 0 <= i < j < s.len() ==> s[i].0 != s[j].0
}

/// The map a pair sequence denotes; later pairs win on a repeated key.
pub open spec fn labels_map(s: LabelSeq) -> Map<Seq<char>, Seq<char>>
    decreases s.len(),
{
    if s.len() == 0 {
        Map::empty()
    } else {
        labels_map(s.drop_last()).insert(s.last().0, s.last().1)
    }
}

/// A key is in the denoted map exactly when some pair of the sequence
/// carries it.
pub proof fn lemma_labels_map_dom(s: LabelSeq, k: Seq<char>)
    ensures
        labels_map(s).contains_key(k) <==> exists|i: int| 0 <= i < s.len() && s[i].0 == k,
    decreases s.len(),
{
    if s.len() > 0 {
        lemma_labels_map_dom(s.drop_last(), k);
        if s.last().0 == k {
            assert(s[s.len() - 1].0 == k);
        } else if labels_map(s).contains_key(k) {
            let i = choose|i: int| 0 <= i < s.drop_last().len() && s.drop_last()[i].0 == k;
            assert(s[i].0 == k);
        } else if exists|i: int| 0 <= i < s.len() && s[i].0 == k {
            let i = choose|i: int| 0 <= i < s.len() && s[i].0 == k;
            assert(s.drop_last()[i].0 == k);
        }
    }
}

/// Under unique keys, each pair of the sequence is what the denoted map
/// returns for its key.
pub proof fn lemma_labels_map_get(s: LabelSeq, i: int)
    requires
        unique_keys(s),
        0 <= i < s.len(),
    ensures
        labels_map(s).contains_key(s[i].0),
        labels_map(s)[s[i].0] == s[i].1,
    decreases s.len(),
{
    lemma_labels_map_dom(s, s[i].0);
    if i < s.len() - 1 {
        assert(s[i].0 != s.last().0);
        assert(s.drop_last()[i] == s[i]);
        lemma_labels_map_get(s.drop_last(), i);
    }
}

/// The denoted map is finite, and under unique keys its domain is exactly as
/// large as the sequence.
pub proof fn lemma_labels_map_len(s: LabelSeq)
    requires
        unique_keys(s),
    ensures
        labels_map(s).dom().finite(),
        labels_map(s).dom().len() == s.len(),
    decreases s.len(),
{
    if s.len() > 0 {
        lemma_labels_map_len(s.drop_last());
        lemma_labels_map_dom(s.drop_last(), s.last().0);
        assert(forall|i: int| 0 <= i < s.drop_last().len() ==> s[i].0 != s.last().0);
        assert(!labels_map(s.drop_last()).contains_key(s.last().0));
    }
}

/// Free-form labels attached to a node: unique string keys mapped to string
/// values, possibly empty.  The view is the underlying pair sequence; the
/// meaning of a value is `labels_map` of that view.
#[derive(Debug)]
pub struct NodeLabels {
    entries: Vec<(String, String)>,
}

/// The pair sequence a vector of owned strings stands for.
pub open spec fn entries_view(entries: Seq<(String, String)>) -> LabelSeq {
    Seq::new(entries.len(), |i: int| (entries[i].0@, entries[i].1@))
}

impl View for NodeLabels {
    type V = LabelSeq;

    closed spec fn view(&self) -> LabelSeq {
        entries_view(self.entries@)
    }
}

impl NodeLabels {
    #[verifier::type_invariant]
    pub(crate) open spec fn wf(self) -> bool {
        unique_keys(self@)
    }

    /// An empty labelling.
    pub fn new() -> (r: NodeLabels)
        ensures
            r@ == LabelSeq::empty(),
    {
        let r = NodeLabels { entries: Vec::new() };
        proof {
            assert(r@ =~= LabelSeq::empty());
        }
        r
    }

    /// The number of labels.
    pub fn len(&self) -> (n: usize)
        ensures
            n == self@.len(),
    {
        self.entries.len()
    }

    /// Whether no label is set.
    pub fn is_empty(&self) -> (r: bool)
        ensures
            r <==> self@.len() == 0,
    {
        self.entries.len() == 0
    }

    /// The index of the pair carrying `key`, if one does.
    fn find(&self, key: &String) -> (r: Option<usize>)
        ensures
            match r {
                Some(i) => i < self@.len() && self@[i as int].0 == key@,
                None => forall|i: int| 0 <= i < self@.len() ==> self@[i].0 != key@,
            },
    {
        let n = self.entries.len();
        for i in 0..n
            invariant
                n == self@.len(),
                forall|j: int| 0 <= j < i ==> self@[j].0 != key@,
        {
            if self.entries[i].0.eq(key) {
                return Some(i);
            }
        }
        None
    }

    /// The value stored under `key`, if any.
    pub fn get(&self, key: &str) -> (r: Option<&String>)
        ensures
            match r {
                Some(v) => labels_map(self@).contains_key(key@) && v@ == labels_map(self@)[key@],
                None => !labels_map(self@).contains_key(key@),
            },
    {
        proof {
            use_type_invariant(self);
        }
        let owned = key.to_owned();
        match self.find(&owned) {
            Some(i) => {
                proof {
                    lemma_labels_map_get(self@, i as int);
                }
                Some(&self.entries[i].1)
            },
            None => {
                proof {
                    lemma_labels_map_dom(self@, key@);
                }
                None
            },
        }
    }

    /// Set `key` to `value`: a present key has its value replaced, an absent
    /// one is added.  The denoted map gains exactly this one binding.
    pub fn insert(&mut self, key: String, value: String)
        ensures
            labels_map(final(self)@) == labels_map(old(self)@).insert(key@, value@),
            final(self)@.len() <= old(self)@.len() + 1,
    {
        proof {
            use_type_invariant(&*self);
        }
        let ghost s0 = self@;
        let idx = self.find(&key);
        let mut entries: Vec<(String, String)> = Vec::new();
        core::mem::swap(&mut self.entries, &mut entries);
        match idx {
            Some(i) => {
                entries[i] = (key, value);
                proof {
                    assert(s0[i as int].0 == key@);
                    lemma_labels_map_update(s0, i as int, value@);
                    assert(s0.update(i as int, (s0[i as int].0, value@)) =~= s0.update(
                        i as int,
                        (key@, value@),
                    ));
                    assert(entries_view(entries@) =~= s0.update(i as int, (key@, value@)));
                }
            },
            None => {
                entries.push((key, value));
                proof {
                    assert(entries_view(entries@) =~= s0.push((key@, value@)));
                    assert(s0.push((key@, value@)).drop_last() =~= s0);
                    assert(unique_keys(entries_view(entries@)));
                }
            },
        }
        core::mem::swap(&mut self.entries, &mut entries);
    }

    /// Adopt a pair vector as a labelling, provided its keys are unique;
    /// a vector with a repeated key is refused.
    pub fn from_pairs(entries: Vec<(String, String)>) -> (r: Option<NodeLabels>)
        ensures
            match r {
                Some(l) => unique_keys(entries_view(entries@)) && l@ == entries_view(entries@),
                None => !unique_keys(entries_view(entries@)),
            },
    {
        let n = entries.len();
        for i in 0..n
            invariant
                n == entries@.len(),
                forall|a: int, b: int|
                    0 <= a < b < i ==> entries_view(entries@)[a].0 != entries_view(entries@)[b].0,
        {
            for j in 0..i
                invariant
                    i < n,
                    n == entries@.len(),
                    forall|a: int, b: int|
                        0 <= a < b < i ==> entries_view(entries@)[a].0 != entries_view(
                            entries@,
                        )[b].0,
                    forall|a: int|
                        0 <= a < j ==> entries_view(entries@)[a].0 != entries_view(
                            entries@,
                        )[i as int].0,
            {
                if entries[j].0.eq(&entries[i].0) {
                    proof {
                        assert(entries_view(entries@)[j as int].0 == entries_view(
                            entries@,
                        )[i as int].0);
                        assert(!unique_keys(entries_view(entries@)));
                    }
                    return None;
                }
            }
        }
        proof {
            assert(unique_keys(entries_view(entries@)));
        }
        Some(NodeLabels { entries })
    }

    /// The pairs as stored, for callers that must walk every label.
    pub fn entries(&self) -> (r: &Vec<(String, String)>)
        ensures
            r@.len() == self@.len(),
            forall|i: int|
                0 <= i < r@.len() ==> r@[i].0@ == self@[i].0 && r@[i].1@ == self@[i].1,
    {
        &self.entries
    }

    /// Rebuild a labelling pair by pair.
    pub fn duplicate(&self) -> (r: NodeLabels)
        ensures
            r@ == self@,
    {
        proof {
            use_type_invariant(self);
        }
        let mut entries: Vec<(String, String)> = Vec::new();
        let n = self.entries.len();
        for i in 0..n
            invariant
                n == self@.len(),
                entries@.len() == i,
                forall|j: int|
                    0 <= j < i ==> entries@[j].0@ == self@[j].0 && entries@[j].1@ == self@[j].1,
        {
            let k = self.entries[i].0.clone();
            let v = self.entries[i].1.clone();
            entries.push((k, v));
        }
        proof {
            assert(entries_view(entries@) =~= self@);
        }
        let r = NodeLabels { entries };
        r
    }
}

/// Replacing the value of the pair that carries a key denotes the same map
/// as inserting that binding.
proof fn lemma_labels_map_update(s: LabelSeq, i: int, v: Seq<char>)
    requires
        unique_keys(s),
        0 <= i < s.len(),
    ensures
        unique_keys(s.update(i, (s[i].0, v))),
        labels_map(s.update(i, (s[i].0, v))) == labels_map(s).insert(s[i].0, v),
    decreases s.len(),
{
    let t = s.update(i, (s[i].0, v));
    assert(unique_keys(t));
    if i == s.len() - 1 {
        assert(t.drop_last() =~= s.drop_last());
        assert(t.last() == (s[i].0, v));
    } else {
        lemma_labels_map_update(s.drop_last(), i, v);
        assert(t.drop_last() =~= s.drop_last().update(i, (s[i].0, v)));
        assert(t.last() == s.last());
        assert(s.drop_last()[i] == s[i]);
        assert(s[i].0 != s.last().0);
        assert(labels_map(t) == labels_map(s.drop_last()).insert(s[i].0, v).insert(
            s.last().0,
            s.last().1,
        ));
        assert(labels_map(s.drop_last()).insert(s[i].0, v).insert(s.last().0, s.last().1)
            =~= labels_map(s.drop_last()).insert(s.last().0, s.last().1).insert(s[i].0, v));
    }
}

/// Two labellings with unique keys denote equal maps exactly when they have
/// the same number of pairs and every pair of the first is a binding of the
/// second.
pub proof fn lemma_labels_map_equality(a: LabelSeq, b: LabelSeq)
    requires
        unique_keys(a),
        unique_keys(b),
        a.len() == b.len(),
        forall|i: int|
            0 <= i < a.len() ==> labels_map(b).contains_key(#[trigger] a[i].0) && labels_map(b)[a[i].0]
                == a[i].1,
    ensures
        labels_map(a) == labels_map(b),
{
    lemma_labels_map_len(a);
    lemma_labels_map_len(b);
    assert forall|k: Seq<char>| #[trigger] labels_map(a).dom().contains(k) implies labels_map(
        b,
    ).dom().contains(k) && labels_map(b)[k] == labels_map(a)[k] by {
        lemma_labels_map_dom(a, k);
        let i = choose|i: int| 0 <= i < a.len() && a[i].0 == k;
        lemma_labels_map_get(a, i);
        assert(labels_map(b).contains_key(a[i].0) && labels_map(b)[a[i].0] == a[i].1);
    }
    assert(labels_map(a).dom().subset_of(labels_map(b).dom()));
    lemma_subset_equality(labels_map(a).dom(), labels_map(b).dom());
    assert(labels_map(a) =~= labels_map(b));
}

impl vstd::std_specs::cmp::PartialEqSpecImpl for NodeLabels {
    open spec fn obeys_eq_spec() -> bool {
        true
    }

    open spec fn eq_spec(&self, other: &NodeLabels) -> bool {
        labels_map(self@) == labels_map(other@)
    }
}

impl PartialEq for NodeLabels {
    /// Label collections are equal as maps: the same keys bound to the same
    /// values, in whatever order the pairs were added.
    fn eq(&self, other: &NodeLabels) -> (r: bool) {
        proof {
            use_type_invariant(self);
            use_type_invariant(other);
        }
        if self.entries.len() != other.entries.len() {
            proof {
                lemma_labels_map_len(self@);
                lemma_labels_map_len(other@);
            }
            return false;
        }
        let n = self.entries.len();
        for i in 0..n
            invariant
                unique_keys(self@),
                unique_keys(other@),
                n == self@.len(),
                self@.len() == other@.len(),
                forall|j: int|
                    0 <= j < i ==> labels_map(other@).contains_key(#[trigger] self@[j].0)
                        && labels_map(other@)[self@[j].0] == self@[j].1,
        {
            match other.find(&self.entries[i].0) {
                Some(j) => {
                    if !(self.entries[i].1 == other.entries[j].1) {
                        proof {
                            lemma_labels_map_get(self@, i as int);
                            lemma_labels_map_get(other@, j as int);
                        }
                        return false;
                    }
                    proof {
                        lemma_labels_map_get(other@, j as int);
                    }
                },
                None => {
                    proof {
                        lemma_labels_map_get(self@, i as int);
                        lemma_labels_map_dom(other@, self@[i as int].0);
                    }
                    return false;
                },
            }
        }
        proof {
            lemma_labels_map_equality(self@, other@);
        }
        true
    }
}

} // verus!
