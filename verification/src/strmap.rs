use vstd::prelude::*;

use crate::text::chars_of;

verus! {

// ---------------------------------------------------------------------------
// The order of strings
// ---------------------------------------------------------------------------

/// Lexicographic order of character sequences, characters compared by their
/// code point. This is the order of `String` (UTF-8 keeps code point order).
pub open spec fn text_lt(a: Seq<char>, b: Seq<char>) -> bool
    decreases a.len(),
{
    if a.len() == 0 {
        b.len() > 0
    } else if b.len() == 0 {
        false
    } else if a[0] == b[0] {
        text_lt(a.drop_first(), b.drop_first())
    } else {
        a[0] < b[0]
    }
}

/// No sequence is below itself.
pub proof fn lemma_text_lt_irreflexive(a: Seq<char>)
    ensures
        !text_lt(a, a),
    decreases a.len(),
{
    if a.len() > 0 {
        lemma_text_lt_irreflexive(a.drop_first());
    }
}

/// The order is transitive.
pub proof fn lemma_text_lt_transitive(a: Seq<char>, b: Seq<char>, c: Seq<char>)
    requires
        text_lt(a, b),
        text_lt(b, c),
    ensures
        text_lt(a, c),
    decreases a.len(),
{
    if a.len() > 0 && b.len() > 0 && c.len() > 0 {
        if a[0] == b[0] && b[0] == c[0] {
            lemma_text_lt_transitive(a.drop_first(), b.drop_first(), c.drop_first());
        }
    }
}

/// Two distinct sequences are ordered one way or the other, never both.
pub proof fn lemma_text_lt_total(a: Seq<char>, b: Seq<char>)
    ensures
        a != b ==> (text_lt(a, b) || text_lt(b, a)),
        !(text_lt(a, b) && text_lt(b, a)),
    decreases a.len(),
{
    if a.len() > 0 && b.len() > 0 {
        lemma_text_lt_total(a.drop_first(), b.drop_first());
        if a[0] == b[0] {
            if a.drop_first() == b.drop_first() {
                assert(a =~= seq![a[0]] + a.drop_first());
                assert(b =~= seq![b[0]] + b.drop_first());
            }
        } else {
        }
    } else if a.len() == 0 && b.len() == 0 {
        assert(a =~= b);
    }
}

proof fn lemma_text_lt_common_prefix(a: Seq<char>, b: Seq<char>, i: int)
    requires
        0 <= i <= a.len(),
        i <= b.len(),
        a.take(i) == b.take(i),
    ensures
        text_lt(a, b) == text_lt(a.skip(i), b.skip(i)),
    decreases i,
{
    if i > 0 {
        assert(a[0] == a.take(i)[0]);
        assert(b[0] == b.take(i)[0]);
        assert(a.drop_first().take(i - 1) =~= a.take(i).drop_first());
        assert(b.drop_first().take(i - 1) =~= b.take(i).drop_first());
        lemma_text_lt_common_prefix(a.drop_first(), b.drop_first(), i - 1);
        assert(a.drop_first().skip(i - 1) =~= a.skip(i));
        assert(b.drop_first().skip(i - 1) =~= b.skip(i));
    } else {
        assert(a.skip(0) =~= a);
        assert(b.skip(0) =~= b);
    }
}

/// The outcome of comparing two strings.
#[derive(PartialEq, Eq, Structural, Clone, Copy, Debug)]
pub enum TextOrder {
    Less,
    Equal,
    Greater,
}

/// Compares two character sequences in the order `text_lt`.
pub fn compare_chars(a: &Vec<char>, b: &Vec<char>) -> (r: TextOrder)
    ensures
        r == TextOrder::Less <==> text_lt(a@, b@),
        r == TextOrder::Equal <==> a@ == b@,
        r == TextOrder::Greater <==> text_lt(b@, a@),
{
    let mut i: usize = 0;
    while i < a.len() && i < b.len()
        invariant
            i <= a@.len(),
            i <= b@.len(),
            a@.take(i as int) == b@.take(i as int),
        decreases a@.len() - i,
    {
        if a[i] != b[i] {
            proof {
                lemma_text_lt_common_prefix(a@, b@, i as int);
                lemma_text_lt_common_prefix(b@, a@, i as int);
                assert(a@.skip(i as int)[0] == a@[i as int]);
                assert(b@.skip(i as int)[0] == b@[i as int]);
                lemma_text_lt_total(a@, b@);
            }
            if a[i] < b[i] {
                return TextOrder::Less;
            } else {
                return TextOrder::Greater;
            }
        }
        proof {
            assert(a@.take(i + 1) =~= a@.take(i as int).push(a@[i as int]));
            assert(b@.take(i + 1) =~= b@.take(i as int).push(b@[i as int]));
        }
        i = i + 1;
    }
    proof {
        lemma_text_lt_common_prefix(a@, b@, i as int);
        lemma_text_lt_common_prefix(b@, a@, i as int);
        lemma_text_lt_total(a@, b@);
        lemma_text_lt_irreflexive(a@);
    }
    if a.len() == b.len() {
        proof {
            assert(a@ =~= a@.take(i as int));
            assert(b@ =~= b@.take(i as int));
        }
        TextOrder::Equal
    } else if a.len() < b.len() {
        proof {
            assert(a@.len() != b@.len());
        }
        TextOrder::Less
    } else {
        proof {
            assert(a@.len() != b@.len());
        }
        TextOrder::Greater
    }
}

// ---------------------------------------------------------------------------
// Ordered maps keyed by strings
// ---------------------------------------------------------------------------

/// Entries are in strictly increasing key order (so no key occurs twice).
pub open spec fn keys_sorted<W>(s: Seq<(Seq<char>, W)>) -> bool {
    forall|i: int, j: int| 0 <= i < j < s.len() ==> text_lt(#[trigger] s[i].0, #[trigger] s[j].0)
}

/// The value stored under `k`, if any.
pub open spec fn lookup<W>(s: Seq<(Seq<char>, W)>, k: Seq<char>) -> Option<W>
    decreases s.len(),
{
    if s.len() == 0 {
        None
    } else if s[0].0 == k {
        Some(s[0].1)
    } else {
        lookup(s.drop_first(), k)
    }
}

/// Inserting `k` with `v` into sorted entries: the value of an existing entry
/// with key `k` is replaced, otherwise a new entry goes where the order puts it.
pub open spec fn sorted_insert<W>(s: Seq<(Seq<char>, W)>, k: Seq<char>, v: W) -> Seq<
    (Seq<char>, W),
>
    decreases s.len(),
{
    if s.len() == 0 {
        seq![(k, v)]
    } else if s[0].0 == k {
        seq![(k, v)] + s.drop_first()
    } else if text_lt(k, s[0].0) {
        seq![(k, v)] + s
    } else {
        seq![s[0]] + sorted_insert(s.drop_first(), k, v)
    }
}

/// Inserting keeps the entries in key order.
pub proof fn lemma_sorted_insert_sorted<W>(s: Seq<(Seq<char>, W)>, k: Seq<char>, v: W)
    requires
        keys_sorted(s),
    ensures
        keys_sorted(sorted_insert(s, k, v)),
        forall|i: int|
            0 <= i < sorted_insert(s, k, v).len() ==> (#[trigger] sorted_insert(s, k, v)[i].0 == k
                || exists|j: int| 0 <= j < s.len() && s[j].0 == sorted_insert(s, k, v)[i].0),
    decreases s.len(),
{
    let r = sorted_insert(s, k, v);
    if s.len() == 0 {
    } else if s[0].0 == k {
        assert forall|i: int| 0 <= i < r.len() implies (#[trigger] r[i].0 == k || exists|j: int|
            0 <= j < s.len() && s[j].0 == r[i].0) by {
            if i > 0 {
                assert(r[i] == s[i]);
            }
        }
    } else if text_lt(k, s[0].0) {
        assert forall|i: int, j: int| 0 <= i < j < r.len() implies text_lt(
            #[trigger] r[i].0,
            #[trigger] r[j].0,
        ) by {
            if i == 0 {
                assert(r[j] == s[j - 1]);
                if j - 1 > 0 {
                    lemma_text_lt_transitive(k, s[0].0, s[j - 1].0);
                }
            } else {
                assert(r[i] == s[i - 1]);
                assert(r[j] == s[j - 1]);
            }
        }
        assert forall|i: int| 0 <= i < r.len() implies (#[trigger] r[i].0 == k || exists|j: int|
            0 <= j < s.len() && s[j].0 == r[i].0) by {
            if i > 0 {
                assert(r[i] == s[i - 1]);
            }
        }
    } else {
        let t = s.drop_first();
        assert(keys_sorted(t)) by {
            assert forall|i: int, j: int| 0 <= i < j < t.len() implies text_lt(
                #[trigger] t[i].0,
                #[trigger] t[j].0,
            ) by {
                assert(t[i] == s[i + 1]);
                assert(t[j] == s[j + 1]);
            }
        }
        lemma_sorted_insert_sorted(t, k, v);
        lemma_text_lt_total(k, s[0].0);
        let rt = sorted_insert(t, k, v);
        assert(r == seq![s[0]] + rt);
        assert forall|i: int, j: int| 0 <= i < j < r.len() implies text_lt(
            #[trigger] r[i].0,
            #[trigger] r[j].0,
        ) by {
            if i == 0 {
                assert(r[j] == rt[j - 1]);
                if rt[j - 1].0 != k {
                    let jj = choose|jj: int| 0 <= jj < t.len() && t[jj].0 == rt[j - 1].0;
                    assert(t[jj] == s[jj + 1]);
                }
            } else {
                assert(r[i] == rt[i - 1]);
                assert(r[j] == rt[j - 1]);
            }
        }
        assert forall|i: int| 0 <= i < r.len() implies (#[trigger] r[i].0 == k || exists|j: int|
            0 <= j < s.len() && s[j].0 == r[i].0) by {
            if i == 0 {
                assert(s[0].0 == r[0].0);
            } else {
                assert(r[i] == rt[i - 1]);
                if rt[i - 1].0 != k {
                    let jj = choose|jj: int| 0 <= jj < t.len() && t[jj].0 == rt[i - 1].0;
                    assert(t[jj] == s[jj + 1]);
                }
            }
        }
    }
}

/// A read after a write: looking up the key just written gives the value
/// written; every other key keeps its value.
pub proof fn lemma_sorted_insert_lookup<W>(
    s: Seq<(Seq<char>, W)>,
    k: Seq<char>,
    v: W,
    q: Seq<char>,
)
    ensures
        lookup(sorted_insert(s, k, v), q) == (if q == k {
            Some(v)
        } else {
            lookup(s, q)
        }),
    decreases s.len(),
{
    let r = sorted_insert(s, k, v);
    if s.len() == 0 {
        assert(r[0] == (k, v));
        assert(r.drop_first() =~= Seq::<(Seq<char>, W)>::empty());
        assert(lookup(r.drop_first(), q) is None);
    } else if s[0].0 == k {
        assert(r[0] == (k, v));
        assert(r.drop_first() =~= s.drop_first());
    } else if text_lt(k, s[0].0) {
        assert(r[0] == (k, v));
        assert(r.drop_first() =~= s);
    } else {
        lemma_sorted_insert_lookup(s.drop_first(), k, v, q);
        assert(r[0] == s[0]);
        assert(r.drop_first() =~= sorted_insert(s.drop_first(), k, v));
    }
}

/// Inserting adds one entry exactly when the key was absent.
pub proof fn lemma_sorted_insert_len<W>(s: Seq<(Seq<char>, W)>, k: Seq<char>, v: W)
    requires
        keys_sorted(s),
    ensures
        sorted_insert(s, k, v).len() == s.len() + (if lookup(s, k) is None {
            1int
        } else {
            0int
        }),
    decreases s.len(),
{
    if s.len() > 0 && s[0].0 != k {
        let t = s.drop_first();
        assert(keys_sorted(t)) by {
            assert forall|i: int, j: int| 0 <= i < j < t.len() implies text_lt(
                #[trigger] t[i].0,
                #[trigger] t[j].0,
            ) by {
                assert(t[i] == s[i + 1]);
                assert(t[j] == s[j + 1]);
            }
        }
        if !text_lt(k, s[0].0) {
            lemma_sorted_insert_len(t, k, v);
        } else {
            assert forall|i: int| 0 <= i < s.len() implies s[i].0 != k by {
                lemma_text_lt_irreflexive(k);
                if i > 0 {
                    assert(text_lt(s[0].0, s[i].0));
                    lemma_text_lt_transitive(k, s[0].0, s[i].0);
                }
            }
            lemma_lookup_absent(s, k);
        }
    }
}

proof fn lemma_lookup_index<W>(s: Seq<(Seq<char>, W)>, k: Seq<char>, p: int)
    requires
        keys_sorted(s),
        0 <= p < s.len(),
        s[p].0 == k,
    ensures
        lookup(s, k) == Some(s[p].1),
    decreases s.len(),
{
    if p > 0 {
        lemma_text_lt_irreflexive(k);
        assert(s[0].0 != k) by {
            assert(text_lt(s[0].0, s[p].0));
        }
        let t = s.drop_first();
        assert(keys_sorted(t)) by {
            assert forall|i: int, j: int| 0 <= i < j < t.len() implies text_lt(
                #[trigger] t[i].0,
                #[trigger] t[j].0,
            ) by {
                assert(t[i] == s[i + 1]);
                assert(t[j] == s[j + 1]);
            }
        }
        assert(t[p - 1] == s[p]);
        lemma_lookup_index(t, k, p - 1);
    }
}

proof fn lemma_lookup_absent<W>(s: Seq<(Seq<char>, W)>, k: Seq<char>)
    requires
        forall|i: int| 0 <= i < s.len() ==> s[i].0 != k,
    ensures
        lookup(s, k) is None,
    decreases s.len(),
{
    if s.len() > 0 {
        assert forall|i: int| 0 <= i < s.len() - 1 implies s.drop_first()[i].0 != k by {
            assert(s.drop_first()[i] == s[i + 1]);
        }
        lemma_lookup_absent(s.drop_first(), k);
    }
}

proof fn lemma_sorted_insert_at<W>(s: Seq<(Seq<char>, W)>, k: Seq<char>, v: W, p: int)
    requires
        keys_sorted(s),
        0 <= p <= s.len(),
        forall|i: int| 0 <= i < p ==> text_lt(#[trigger] s[i].0, k),
        p < s.len() ==> !text_lt(s[p].0, k),
    ensures
        p < s.len() && s[p].0 == k ==> sorted_insert(s, k, v) == s.update(p, (k, v)),
        !(p < s.len() && s[p].0 == k) ==> sorted_insert(s, k, v) == s.insert(p, (k, v)),
    decreases s.len(),
{
    if s.len() == 0 {
        assert(s.insert(p, (k, v)) =~= seq![(k, v)]);
    } else if p == 0 {
        lemma_text_lt_total(s[0].0, k);
        if s[0].0 == k {
            assert(s.update(0, (k, v)) =~= seq![(k, v)] + s.drop_first());
        } else {
            assert(s.insert(0, (k, v)) =~= seq![(k, v)] + s);
        }
    } else {
        assert(text_lt(s[0].0, k));
        lemma_text_lt_irreflexive(k);
        lemma_text_lt_total(s[0].0, k);
        let t = s.drop_first();
        assert(keys_sorted(t)) by {
            assert forall|i: int, j: int| 0 <= i < j < t.len() implies text_lt(
                #[trigger] t[i].0,
                #[trigger] t[j].0,
            ) by {
                assert(t[i] == s[i + 1]);
                assert(t[j] == s[j + 1]);
            }
        }
        assert forall|i: int| 0 <= i < p - 1 implies text_lt(#[trigger] t[i].0, k) by {
            assert(t[i] == s[i + 1]);
        }
        if p < s.len() {
            assert(t[p - 1] == s[p]);
        }
        lemma_sorted_insert_at(t, k, v, p - 1);
        if p < s.len() && s[p].0 == k {
            assert(s.update(p, (k, v)) =~= seq![s[0]] + t.update(p - 1, (k, v)));
        } else {
            assert(s.insert(p, (k, v)) =~= seq![s[0]] + t.insert(p - 1, (k, v)));
        }
    }
}

/// A value found by `lookup` is the value of one of the entries.
pub proof fn lemma_lookup_value<W>(s: Seq<(Seq<char>, W)>, k: Seq<char>)
    requires
        lookup(s, k) is Some,
    ensures
        exists|i: int| 0 <= i < s.len() && s[i].0 == k && s[i].1 == lookup(s, k)->0,
    decreases s.len(),
{
    if s[0].0 != k {
        lemma_lookup_value(s.drop_first(), k);
        let i = choose|i: int|
            0 <= i < s.drop_first().len() && s.drop_first()[i].0 == k && s.drop_first()[i].1
                == lookup(s.drop_first(), k)->0;
        assert(s[i + 1] == s.drop_first()[i]);
    } else {
        assert(s[0].1 == lookup(s, k)->0);
    }
}

/// Every entry after an insertion is the inserted one or an entry from
/// before.
pub proof fn lemma_sorted_insert_values<W>(s: Seq<(Seq<char>, W)>, k: Seq<char>, v: W)
    ensures
        forall|i: int|
            0 <= i < sorted_insert(s, k, v).len() ==> #[trigger] sorted_insert(s, k, v)[i] == (k, v)
                || exists|j: int| 0 <= j < s.len() && s[j] == sorted_insert(s, k, v)[i],
    decreases s.len(),
{
    let r = sorted_insert(s, k, v);
    if s.len() == 0 {
    } else if s[0].0 == k {
        assert forall|i: int| 0 <= i < r.len() implies #[trigger] r[i] == (k, v) || exists|j: int|
            0 <= j < s.len() && s[j] == r[i] by {
            if i > 0 {
                assert(r[i] == s[i]);
            }
        }
    } else if text_lt(k, s[0].0) {
        assert forall|i: int| 0 <= i < r.len() implies #[trigger] r[i] == (k, v) || exists|j: int|
            0 <= j < s.len() && s[j] == r[i] by {
            if i > 0 {
                assert(r[i] == s[i - 1]);
            }
        }
    } else {
        let t = s.drop_first();
        lemma_sorted_insert_values(t, k, v);
        let rt = sorted_insert(t, k, v);
        assert forall|i: int| 0 <= i < r.len() implies #[trigger] r[i] == (k, v) || exists|j: int|
            0 <= j < s.len() && s[j] == r[i] by {
            if i == 0 {
                assert(r[0] == s[0]);
            } else {
                assert(r[i] == rt[i - 1]);
                if rt[i - 1] != (k, v) {
                    let jj = choose|jj: int| 0 <= jj < t.len() && t[jj] == rt[i - 1];
                    assert(s[jj + 1] == t[jj]);
                }
            }
        }
    }
}

/// Inserting under a key that is present replaces that entry's value in
/// place.
pub proof fn lemma_sorted_insert_existing<W>(s: Seq<(Seq<char>, W)>, p: int, v: W)
    requires
        keys_sorted(s),
        0 <= p < s.len(),
    ensures
        sorted_insert(s, s[p].0, v) == s.update(p, (s[p].0, v)),
{
    lemma_text_lt_irreflexive(s[p].0);
    lemma_sorted_insert_at(s, s[p].0, v, p);
}

/// An ordered map from strings to values, kept as a vector of entries in
/// increasing key order. Walking it visits the keys in order.
pub struct StrMap<V> {
    entries: Vec<(String, V)>,
}

impl<V: View> View for StrMap<V> {
    type V = Seq<(Seq<char>, V::V)>;

    closed spec fn view(&self) -> Seq<(Seq<char>, V::V)> {
        Seq::new(
            self.entries@.len(),
            |i: int| (self.entries@[i].0@, self.entries@[i].1@),
        )
    }
}

impl<V: View> StrMap<V> {
    /// The map's entries are in strictly increasing key order.
    pub open spec fn wf(&self) -> bool {
        keys_sorted(self@)
    }

    /// An empty map.
    pub fn new() -> (m: Self)
        ensures
            m.wf(),
            m@ == Seq::<(Seq<char>, V::V)>::empty(),
    {
        let m = StrMap { entries: Vec::new() };
        assert(m@ =~= Seq::<(Seq<char>, V::V)>::empty());
        m
    }

    /// Number of entries.
    pub fn len(&self) -> (n: usize)
        ensures
            n == self@.len(),
    {
        self.entries.len()
    }

    /// The key of the `i`-th entry in key order.
    pub fn key_at(&self, i: usize) -> (k: &String)
        requires
            i < self@.len(),
        ensures
            k@ == self@[i as int].0,
    {
        &self.entries[i].0
    }

    /// The value of the `i`-th entry in key order.
    pub fn value_at(&self, i: usize) -> (v: &V)
        requires
            i < self@.len(),
        ensures
            v@ == self@[i as int].1,
    {
        &self.entries[i].1
    }

    /// The index of the entry with key `key`, if there is one.
    pub fn index_of(&self, key: &str) -> (r: Option<usize>)
        requires
            self.wf(),
        ensures
            match r {
                Some(i) => i < self@.len() && self@[i as int].0 == key@ && lookup(self@, key@)
                    == Some(self@[i as int].1),
                None => lookup(self@, key@) is None,
            },
    {
        let k = chars_of(key);
        let p = self.position(&k);
        if p < self.entries.len() {
            let pk = chars_of(self.entries[p].0.as_str());
            if compare_chars(&pk, &k) == TextOrder::Equal {
                proof {
                    lemma_lookup_index(self@, key@, p as int);
                }
                return Some(p);
            }
        }
        proof {
            assert forall|i: int| 0 <= i < self@.len() implies self@[i].0 != key@ by {
                lemma_text_lt_irreflexive(key@);
                if i > p {
                    assert(text_lt(self@[p as int].0, self@[i].0));
                    if self@[i].0 == key@ {
                        lemma_text_lt_total(self@[p as int].0, key@);
                    }
                }
            }
            lemma_lookup_absent(self@, key@);
        }
        None
    }

    /// Replaces the value of the `i`-th entry, returning the value it had.
    pub fn replace_value_at(&mut self, i: usize, value: V) -> (prev: V)
        requires
            old(self).wf(),
            i < old(self)@.len(),
        ensures
            final(self).wf(),
            prev@ == old(self)@[i as int].1,
            final(self)@ == old(self)@.update(i as int, (old(self)@[i as int].0, value@)),
    {
        let ghost old_view = self@;
        let (k, prev) = self.entries.remove(i);
        self.entries.insert(i, (k, value));
        proof {
            assert(self@ =~= old_view.update(i as int, (old_view[i as int].0, value@)));
            assert forall|a: int, b: int| 0 <= a < b < self@.len() implies text_lt(
                #[trigger] self@[a].0,
                #[trigger] self@[b].0,
            ) by {
                assert(self@[a].0 == old_view[a].0);
                assert(self@[b].0 == old_view[b].0);
            }
        }
        prev
    }

    /// The position of the first entry whose key is not below `k`.
    fn position(&self, k: &Vec<char>) -> (p: usize)
        requires
            self.wf(),
        ensures
            p <= self@.len(),
            forall|i: int| 0 <= i < p ==> text_lt(#[trigger] self@[i].0, k@),
            p < self@.len() ==> !text_lt(self@[p as int].0, k@),
    {
        let mut lo: usize = 0;
        let mut hi: usize = self.entries.len();
        while lo < hi
            invariant
                self.wf(),
                lo <= hi <= self@.len(),
                forall|i: int| 0 <= i < lo ==> text_lt(#[trigger] self@[i].0, k@),
                forall|i: int| hi <= i < self@.len() ==> !text_lt(#[trigger] self@[i].0, k@),
            decreases hi - lo,
        {
            let mid = lo + (hi - lo) / 2;
            let mk = chars_of(self.entries[mid].0.as_str());
            let o = compare_chars(&mk, k);
            if o == TextOrder::Less {
                proof {
                    assert forall|i: int| 0 <= i < mid + 1 implies text_lt(
                        #[trigger] self@[i].0,
                        k@,
                    ) by {
                        if i < mid {
                            lemma_text_lt_transitive(self@[i].0, self@[mid as int].0, k@);
                        }
                    }
                }
                lo = mid + 1;
            } else {
                proof {
                    assert forall|i: int| mid <= i < self@.len() implies !text_lt(
                        #[trigger] self@[i].0,
                        k@,
                    ) by {
                        if i > mid {
                            lemma_text_lt_total(self@[mid as int].0, k@);
                            if text_lt(self@[i].0, k@) {
                                if self@[mid as int].0 == k@ {
                                    lemma_text_lt_total(self@[i].0, k@);
                                } else {
                                    lemma_text_lt_transitive(
                                        self@[mid as int].0,
                                        self@[i].0,
                                        k@,
                                    );
                                    lemma_text_lt_total(self@[mid as int].0, k@);
                                }
                            }
                        }
                    }
                }
                hi = mid;
            }
        }
        lo
    }

    /// The value stored under `key`, if any.
    pub fn get(&self, key: &str) -> (r: Option<&V>)
        requires
            self.wf(),
        ensures
            match r {
                Some(v) => lookup(self@, key@) == Some(v@),
                None => lookup(self@, key@) is None,
            },
    {
        let k = chars_of(key);
        let p = self.position(&k);
        if p < self.entries.len() {
            let pk = chars_of(self.entries[p].0.as_str());
            if compare_chars(&pk, &k) == TextOrder::Equal {
                proof {
                    lemma_lookup_index(self@, key@, p as int);
                }
                return Some(&self.entries[p].1);
            }
        }
        proof {
            assert forall|i: int| 0 <= i < self@.len() implies self@[i].0 != key@ by {
                lemma_text_lt_irreflexive(key@);
                if i > p {
                    assert(text_lt(self@[p as int].0, self@[i].0));
                    if self@[i].0 == key@ {
                        lemma_text_lt_total(self@[p as int].0, key@);
                    }
                }
            }
            lemma_lookup_absent(self@, key@);
        }
        None
    }

    /// Inserts `value` under `key`, replacing the value of an entry that has
    /// that key already.
    pub fn insert(&mut self, key: String, value: V)
        requires
            old(self).wf(),
        ensures
            final(self).wf(),
            final(self)@ == sorted_insert(old(self)@, key@, value@),
    {
        let k = chars_of(key.as_str());
        let p = self.position(&k);
        let ghost old_view = self@;
        let ghost kv = key@;
        let ghost vv = value@;
        proof {
            lemma_sorted_insert_at(old_view, kv, vv, p as int);
            lemma_sorted_insert_sorted(old_view, kv, vv);
        }
        let mut same = false;
        if p < self.entries.len() {
            let pk = chars_of(self.entries[p].0.as_str());
            same = compare_chars(&pk, &k) == TextOrder::Equal;
        }
        if same {
            self.entries.set(p, (key, value));
            proof {
                assert(self@ =~= old_view.update(p as int, (kv, vv)));
            }
        } else {
            self.entries.insert(p, (key, value));
            proof {
                assert(self@ =~= old_view.insert(p as int, (kv, vv)));
            }
        }
    }
}

} // verus!
