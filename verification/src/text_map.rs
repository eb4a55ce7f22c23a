//! An ordered map whose keys are texts.

use vstd::prelude::*;
use vstd::utf8::*;

use crate::text::{
    lemma_lex_irreflexive, lemma_lex_total, lemma_lex_transitive, lemma_utf8_injective, same_text,
    text_before, text_lt,
};

verus! {

/// A map from texts to values, kept in the order of its keys.
#[derive(Debug, PartialEq, Eq, Hash)]
pub struct TextMap<V> {
    entries: Vec<(String, V)>,
}

/// Whether the keys of `s` are strictly ascending.
pub open spec fn ascending<V>(s: Seq<(String, V)>) -> bool {
    forall|i: int, j: int| 0 <= i < j < s.len() ==> text_lt(#[trigger] s[i].0@, #[trigger] s[j].0@)
}

/// Whether `k` is among the keys of `s`.
pub open spec fn has_key<V>(s: Seq<(String, V)>, k: Seq<char>) -> bool {
    exists|i: int| 0 <= i < s.len() && (#[trigger] s[i]).0@ == k
}

/// Where `k` stands in `s`.
pub open spec fn key_index<V>(s: Seq<(String, V)>, k: Seq<char>) -> int {
    choose|i: int| 0 <= i < s.len() && (#[trigger] s[i]).0@ == k
}

/// The map that a list of entries stands for.
pub open spec fn entries_map<V>(s: Seq<(String, V)>) -> Map<Seq<char>, V> {
    Map::new(|k: Seq<char>| has_key(s, k), |k: Seq<char>| s[key_index(s, k)].1)
}

/// The entries of `s` with each key taken as its characters.
pub open spec fn entry_pairs<V>(s: Seq<(String, V)>) -> Seq<(Seq<char>, V)> {
    s.map_values(|e: (String, V)| (e.0@, e.1))
}

pub proof fn lemma_entry<V>(s: Seq<(String, V)>, i: int)
    requires
        ascending(s),
        0 <= i < s.len(),
    ensures
        entries_map(s).dom().contains(s[i].0@),
        entries_map(s)[s[i].0@] == s[i].1,
        key_index(s, s[i].0@) == i,
{
    let k = s[i].0@;
    assert(has_key(s, k));
    let j = key_index(s, k);
    assert(0 <= j < s.len() && s[j].0@ == k);
    if i != j {
        lemma_lex_irreflexive(encode_utf8(k));
        if i < j {
            assert(text_lt(s[i].0@, s[j].0@));
        } else {
            assert(text_lt(s[j].0@, s[i].0@));
        }
    }
}

/// Two lists in key order that stand for the same map hold the same entries.
pub proof fn lemma_same_map_same_entries<V>(a: Seq<(String, V)>, b: Seq<(String, V)>)
    requires
        ascending(a),
        ascending(b),
        entries_map(a) == entries_map(b),
    ensures
        entry_pairs(a) == entry_pairs(b),
    decreases a.len(),
{
    let m = entries_map(a);
    if a.len() == 0 {
        if b.len() > 0 {
            lemma_entry(b, 0);
            assert(!has_key(a, b[0].0@));
        }
        assert(entry_pairs(a) =~= entry_pairs(b));
    } else if b.len() == 0 {
        lemma_entry(a, 0);
        assert(!has_key(b, a[0].0@));
    } else {
        let i = a.len() - 1;
        let j = b.len() - 1;
        lemma_entry(a, i);
        lemma_entry(b, j);
        let ka = a[i].0@;
        let kb = b[j].0@;
        assert(has_key(b, ka));
        assert(has_key(a, kb));
        let ib = key_index(a, kb);
        let ja = key_index(b, ka);
        if ka != kb {
            assert(text_lt(a[ib].0@, a[i].0@));
            assert(text_lt(b[ja].0@, b[j].0@));
            lemma_lex_transitive(encode_utf8(ka), encode_utf8(kb), encode_utf8(ka));
            lemma_lex_irreflexive(encode_utf8(ka));
        }
        let a1 = a.drop_last();
        let b1 = b.drop_last();
        assert(entries_map(a1) =~= m.remove(ka)) by {
            lemma_drop_last(a);
        }
        assert(entries_map(b1) =~= m.remove(ka)) by {
            lemma_drop_last(b);
        }
        lemma_same_map_same_entries(a1, b1);
        assert(entry_pairs(a) =~= entry_pairs(a1).push((ka, a[i].1)));
        assert(entry_pairs(b) =~= entry_pairs(b1).push((kb, b[j].1)));
    }
}

proof fn lemma_drop_last<V>(s: Seq<(String, V)>)
    requires
        ascending(s),
        s.len() > 0,
    ensures
        ascending(s.drop_last()),
        entries_map(s.drop_last()) == entries_map(s).remove(s.last().0@),
{
    let t = s.drop_last();
    let k = s.last().0@;
    assert(ascending(t)) by {
        assert forall|i: int, j: int| 0 <= i < j < t.len() implies text_lt(
            #[trigger] t[i].0@,
            #[trigger] t[j].0@,
        ) by {
            assert(text_lt(s[i].0@, s[j].0@));
        }
    }
    assert forall|q: Seq<char>| entries_map(t).dom().contains(q) <==> entries_map(s).remove(
        k,
    ).dom().contains(q) by {
        if has_key(t, q) {
            let i = key_index(t, q);
            assert(s[i].0@ == q);
            lemma_entry(s, i);
            lemma_entry(s, s.len() - 1);
        }
        if has_key(s, q) && q != k {
            let i = key_index(s, q);
            assert(t[i].0@ == q);
        }
    }
    assert forall|q: Seq<char>| entries_map(t).dom().contains(q) implies entries_map(t)[q]
        == entries_map(s)[q] by {
        let i = key_index(t, q);
        assert(t[i].0@ == q);
        lemma_entry(s, i);
    }
    assert(entries_map(t) =~= entries_map(s).remove(k));
}

impl<V> View for TextMap<V> {
    type V = Map<Seq<char>, V>;

    closed spec fn view(&self) -> Map<Seq<char>, V> {
        entries_map(self.entries@)
    }
}

impl<V> TextMap<V> {
    /// The keys are strictly ascending.
    pub closed spec fn wf(&self) -> bool {
        ascending(self.entries@)
    }

    /// The entries in key order.
    pub closed spec fn pairs(&self) -> Seq<(Seq<char>, V)> {
        entry_pairs(self.entries@)
    }

    pub fn new() -> (r: Self)
        ensures
            r.wf(),
            r@ == Map::<Seq<char>, V>::empty(),
            r.pairs() == Seq::<(Seq<char>, V)>::empty(),
    {
        let r = TextMap { entries: Vec::new() };
        assert(r@ =~= Map::<Seq<char>, V>::empty());
        assert(r.pairs() =~= Seq::<(Seq<char>, V)>::empty());
        r
    }

    /// `pairs` lists exactly the map, each key once, in ascending order.
    pub proof fn lemma_pairs(&self)
        requires
            self.wf(),
        ensures
            forall|i: int|
                0 <= i < self.pairs().len() ==> self@.dom().contains(
                    (#[trigger] self.pairs()[i]).0,
                ) && self@[self.pairs()[i].0] == self.pairs()[i].1,
            forall|k: Seq<char>| #[trigger]
                self@.dom().contains(k) ==> exists|i: int|
                    0 <= i < self.pairs().len() && (#[trigger] self.pairs()[i]).0 == k,
            forall|i: int, j: int|
                0 <= i < j < self.pairs().len() ==> text_lt(
                    (#[trigger] self.pairs()[i]).0,
                    (#[trigger] self.pairs()[j]).0,
                ),
    {
        let s = self.entries@;
        assert forall|i: int| 0 <= i < self.pairs().len() implies self@.dom().contains(
            (#[trigger] self.pairs()[i]).0,
        ) && self@[self.pairs()[i].0] == self.pairs()[i].1 by {
            lemma_entry(s, i);
        }
        assert forall|k: Seq<char>| #[trigger] self@.dom().contains(k) implies exists|i: int|
            0 <= i < self.pairs().len() && (#[trigger] self.pairs()[i]).0 == k by {
            let i = key_index(s, k);
            assert(self.pairs()[i].0 == k);
        }
        assert forall|i: int, j: int| 0 <= i < j < self.pairs().len() implies text_lt(
            (#[trigger] self.pairs()[i]).0,
            (#[trigger] self.pairs()[j]).0,
        ) by {
            assert(text_lt(s[i].0@, s[j].0@));
        }
    }

    /// The domain is finite and has as many keys as there are entries.
    pub proof fn lemma_len(&self)
        requires
            self.wf(),
        ensures
            self@.dom().finite(),
            self@.dom().len() == self.pairs().len(),
    {
        Self::lemma_len_of(self.entries@);
    }

    proof fn lemma_len_of(s: Seq<(String, V)>)
        requires
            ascending(s),
        ensures
            entries_map(s).dom().finite(),
            entries_map(s).dom().len() == s.len(),
        decreases s.len(),
    {
        if s.len() == 0 {
            assert(entries_map(s).dom() =~= Set::<Seq<char>>::empty());
        } else {
            lemma_drop_last(s);
            Self::lemma_len_of(s.drop_last());
            lemma_entry(s, s.len() - 1);
            let k = s.last().0@;
            assert(entries_map(s).dom() =~= entries_map(s.drop_last()).dom().insert(k));
        }
    }

    /// Maps with equal contents list equal entries.
    pub proof fn lemma_view_determines_pairs(&self, other: &Self)
        requires
            self.wf(),
            other.wf(),
            self@ == other@,
        ensures
            self.pairs() == other.pairs(),
    {
        lemma_same_map_same_entries(self.entries@, other.entries@);
    }

    pub fn len(&self) -> (r: usize)
        ensures
            r == self.pairs().len(),
            self.wf() ==> self@.dom().finite() && r == self@.dom().len(),
    {
        proof {
            if self.wf() {
                self.lemma_len();
            }
        }
        self.entries.len()
    }

    pub fn is_empty(&self) -> (r: bool)
        requires
            self.wf(),
        ensures
            r == (self@ == Map::<Seq<char>, V>::empty()),
            r == (self.pairs().len() == 0),
    {
        let r = self.entries.len() == 0;
        proof {
            if r {
                assert(self@ =~= Map::<Seq<char>, V>::empty());
            } else {
                lemma_entry(self.entries@, 0);
            }
        }
        r
    }

    /// A key splits the ascending keys at every position.
    proof fn lemma_split(s: Seq<(String, V)>, mid: int, k: Seq<char>)
        requires
            ascending(s),
            0 <= mid < s.len(),
        ensures
            text_lt(s[mid].0@, k) ==> forall|j: int|
                0 <= j <= mid ==> text_lt(#[trigger] s[j].0@, k),
            !text_lt(s[mid].0@, k) ==> forall|j: int|
                mid <= j < s.len() ==> !text_lt(#[trigger] s[j].0@, k),
    {
        let m = encode_utf8(s[mid].0@);
        if text_lt(s[mid].0@, k) {
            assert forall|j: int| 0 <= j <= mid implies text_lt(#[trigger] s[j].0@, k) by {
                if j < mid {
                    lemma_lex_transitive(encode_utf8(s[j].0@), m, encode_utf8(k));
                }
            }
        } else {
            assert forall|j: int| mid <= j < s.len() implies !text_lt(#[trigger] s[j].0@, k) by {
                if j > mid && text_lt(s[j].0@, k) {
                    lemma_lex_transitive(m, encode_utf8(s[j].0@), encode_utf8(k));
                }
            }
        }
    }

    /// The number of keys before `key`.
    fn rank(&self, key: &str) -> (r: usize)
        requires
            self.wf(),
        ensures
            r <= self.entries@.len(),
            forall|i: int| 0 <= i < r ==> text_lt(#[trigger] self.entries@[i].0@, key@),
            forall|i: int| r <= i < self.entries@.len() ==> !text_lt(#[trigger] self.entries@[i].0@, key@),
            self@.dom().contains(key@) <==> r < self.entries@.len() && self.entries@[r as int].0@ == key@,
            r < self.entries@.len() && self.entries@[r as int].0@ == key@ ==> self@[key@]
                == self.entries@[r as int].1,
            (r < self.entries@.len() && self.entries@[r as int].0@ != key@) ==> text_lt(
                key@,
                self.entries@[r as int].0@,
            ),
    {
        let mut i: usize = 0;
        let mut end: usize = self.entries.len();
        while i < end
            invariant
                self.wf(),
                i <= end <= self.entries@.len(),
                forall|j: int| 0 <= j < i ==> text_lt(#[trigger] self.entries@[j].0@, key@),
                forall|j: int|
                    end <= j < self.entries@.len() ==> !text_lt(#[trigger] self.entries@[j].0@, key@),
            decreases end - i,
        {
            let mid: usize = i + (end - i) / 2;
            proof {
                Self::lemma_split(self.entries@, mid as int, key@);
            }
            if text_before(self.entries[mid].0.as_str(), key) {
                i = mid + 1;
            } else {
                end = mid;
            }
        }
        proof {
            let s = self.entries@;
            let k = encode_utf8(key@);
            if i < s.len() {
                lemma_lex_total(encode_utf8(s[i as int].0@), k);
                if encode_utf8(s[i as int].0@) == k {
                    lemma_utf8_injective(s[i as int].0@, key@);
                    lemma_entry(s, i as int);
                }
            }
            if has_key(s, key@) {
                let j = key_index(s, key@);
                assert(s[j].0@ == key@);
                lemma_lex_irreflexive(k);
                assert(j >= i) by {
                    if j < i {
                        assert(text_lt(s[j].0@, key@));
                    }
                }
                if j > i {
                    assert(text_lt(s[i as int].0@, s[j].0@));
                }
            }
        }
        i
    }

    pub fn contains(&self, key: &str) -> (r: bool)
        requires
            self.wf(),
        ensures
            r == self@.dom().contains(key@),
    {
        let i: usize = self.rank(key);
        i < self.entries.len() && same_text(self.entries[i].0.as_str(), key)
    }

    pub fn get(&self, key: &str) -> (r: Option<&V>)
        requires
            self.wf(),
        ensures
            match r {
                Some(v) => self@.dom().contains(key@) && *v == self@[key@],
                None => !self@.dom().contains(key@),
            },
    {
        let i: usize = self.rank(key);
        if i < self.entries.len() && same_text(self.entries[i].0.as_str(), key) {
            Some(&self.entries[i].1)
        } else {
            None
        }
    }

    /// The key of entry `i`, in key order.
    pub fn key_at(&self, i: usize) -> (r: &String)
        requires
            i < self.pairs().len(),
        ensures
            r@ == self.pairs()[i as int].0,
    {
        &self.entries[i].0
    }

    /// The value of entry `i`, in key order.
    pub fn value_at(&self, i: usize) -> (r: &V)
        requires
            i < self.pairs().len(),
        ensures
            *r == self.pairs()[i as int].1,
    {
        &self.entries[i].1
    }

    proof fn lemma_insert_absent(s: Seq<(String, V)>, i: int, key: String, v: V)
        requires
            ascending(s),
            0 <= i <= s.len(),
            forall|j: int| 0 <= j < i ==> text_lt(#[trigger] s[j].0@, key@),
            i < s.len() ==> text_lt(key@, s[i].0@),
        ensures
            ascending(s.insert(i, (key, v))),
            entries_map(s.insert(i, (key, v))) == entries_map(s).insert(key@, v),
    {
        let t = s.insert(i, (key, v));
        assert forall|a: int, b: int| 0 <= a < b < t.len() implies text_lt(
            #[trigger] t[a].0@,
            #[trigger] t[b].0@,
        ) by {
            if a < i && b < i {
                assert(text_lt(s[a].0@, s[b].0@));
            } else if a < i && b == i {
            } else if a < i {
                assert(text_lt(s[a].0@, s[b - 1].0@));
            } else if a == i {
                if b - 1 > i {
                    assert(text_lt(s[i].0@, s[b - 1].0@));
                    lemma_lex_transitive(
                        encode_utf8(key@),
                        encode_utf8(s[i].0@),
                        encode_utf8(s[b - 1].0@),
                    );
                }
            } else {
                assert(text_lt(s[a - 1].0@, s[b - 1].0@));
            }
        }
        lemma_entry(t, i);
        assert forall|q: Seq<char>| entries_map(t).dom().contains(q) <==> #[trigger] entries_map(
            s,
        ).insert(key@, v).dom().contains(q) by {
            if has_key(t, q) {
                let j = key_index(t, q);
                if j < i {
                    assert(s[j].0@ == q);
                } else if j > i {
                    assert(s[j - 1].0@ == q);
                }
            }
            if has_key(s, q) {
                let j = key_index(s, q);
                if j < i {
                    assert(t[j].0@ == q);
                } else {
                    assert(t[j + 1].0@ == q);
                }
            }
        }
        assert forall|q: Seq<char>| entries_map(t).dom().contains(q) implies #[trigger] entries_map(
            t,
        )[q] == entries_map(s).insert(key@, v)[q] by {
            let j = key_index(t, q);
            assert(t[j].0@ == q);
            lemma_entry(t, j);
            if j < i {
                lemma_entry(s, j);
                lemma_lex_irreflexive(encode_utf8(key@));
            } else if j > i {
                lemma_entry(s, j - 1);
                assert(text_lt(t[i].0@, t[j].0@));
                lemma_lex_irreflexive(encode_utf8(key@));
            }
        }
        assert(entries_map(t) =~= entries_map(s).insert(key@, v));
    }

    proof fn lemma_update(s: Seq<(String, V)>, i: int, key: String, v: V)
        requires
            ascending(s),
            0 <= i < s.len(),
            s[i].0@ == key@,
        ensures
            ascending(s.update(i, (key, v))),
            entries_map(s.update(i, (key, v))) == entries_map(s).insert(key@, v),
    {
        let t = s.update(i, (key, v));
        assert forall|a: int, b: int| 0 <= a < b < t.len() implies text_lt(
            #[trigger] t[a].0@,
            #[trigger] t[b].0@,
        ) by {
            assert(text_lt(s[a].0@, s[b].0@));
        }
        assert forall|q: Seq<char>| entries_map(t).dom().contains(q) <==> #[trigger] entries_map(
            s,
        ).insert(key@, v).dom().contains(q) by {
            if has_key(t, q) {
                let j = key_index(t, q);
                assert(s[j].0@ == q);
            }
            if has_key(s, q) {
                let j = key_index(s, q);
                assert(t[j].0@ == q);
            }
            assert(t[i].0@ == key@);
        }
        assert forall|q: Seq<char>| entries_map(t).dom().contains(q) implies #[trigger] entries_map(
            t,
        )[q] == entries_map(s).insert(key@, v)[q] by {
            let j = key_index(t, q);
            assert(t[j].0@ == q);
            lemma_entry(t, j);
            lemma_entry(s, j);
            lemma_entry(s, i);
        }
        assert(entries_map(t) =~= entries_map(s).insert(key@, v));
    }

    proof fn lemma_remove(s: Seq<(String, V)>, i: int)
        requires
            ascending(s),
            0 <= i < s.len(),
        ensures
            ascending(s.remove(i)),
            entries_map(s.remove(i)) == entries_map(s).remove(s[i].0@),
    {
        let t = s.remove(i);
        let k = s[i].0@;
        assert forall|a: int, b: int| 0 <= a < b < t.len() implies text_lt(
            #[trigger] t[a].0@,
            #[trigger] t[b].0@,
        ) by {
            let a2 = if a < i { a } else { a + 1 };
            let b2 = if b < i { b } else { b + 1 };
            assert(text_lt(s[a2].0@, s[b2].0@));
        }
        assert forall|q: Seq<char>| entries_map(t).dom().contains(q) <==> #[trigger] entries_map(
            s,
        ).remove(k).dom().contains(q) by {
            if has_key(t, q) {
                let j = key_index(t, q);
                let j2 = if j < i { j } else { j + 1 };
                assert(s[j2].0@ == q);
                lemma_entry(s, j2);
                lemma_entry(s, i);
            }
            if has_key(s, q) && q != k {
                let j = key_index(s, q);
                let j2 = if j < i { j } else { j - 1 };
                assert(t[j2].0@ == q);
            }
        }
        assert forall|q: Seq<char>| entries_map(t).dom().contains(q) implies #[trigger] entries_map(
            t,
        )[q] == entries_map(s).remove(k)[q] by {
            let j = key_index(t, q);
            let j2 = if j < i { j } else { j + 1 };
            assert(s[j2].0@ == q);
            lemma_entry(s, j2);
            lemma_entry(s, i);
            lemma_entry(t, j);
        }
        assert(entries_map(t) =~= entries_map(s).remove(k));
    }

    /// Maps `key` to `v`, in place of what it was mapped to before.
    pub fn insert(&mut self, key: String, v: V)
        requires
            old(self).wf(),
        ensures
            final(self).wf(),
            final(self)@ == old(self)@.insert(key@, v),
    {
        let i: usize = self.rank(key.as_str());
        if i < self.entries.len() && same_text(self.entries[i].0.as_str(), key.as_str()) {
            proof {
                Self::lemma_update(self.entries@, i as int, key, v);
            }
            self.entries[i] = (key, v);
        } else {
            proof {
                Self::lemma_insert_absent(self.entries@, i as int, key, v);
            }
            self.entries.insert(i, (key, v));
        }
    }

    /// Takes `key` out and returns what it was mapped to.
    pub fn remove(&mut self, key: &str) -> (r: Option<V>)
        requires
            old(self).wf(),
        ensures
            final(self).wf(),
            final(self)@ == old(self)@.remove(key@),
            match r {
                Some(v) => old(self)@.dom().contains(key@) && v == old(self)@[key@],
                None => !old(self)@.dom().contains(key@),
            },
    {
        let i: usize = self.rank(key);
        if i < self.entries.len() && same_text(self.entries[i].0.as_str(), key) {
            proof {
                Self::lemma_remove(self.entries@, i as int);
            }
            let e = self.entries.remove(i);
            Some(e.1)
        } else {
            assert(self@.remove(key@) =~= self@);
            None
        }
    }

    /// Takes entry `i`, in key order, out.
    pub fn remove_at(&mut self, i: usize) -> (r: (String, V))
        requires
            old(self).wf(),
            i < old(self).pairs().len(),
        ensures
            final(self).wf(),
            (r.0@, r.1) == old(self).pairs()[i as int],
            final(self).pairs() == old(self).pairs().remove(i as int),
            final(self)@ == old(self)@.remove(r.0@),
    {
        proof {
            Self::lemma_remove(self.entries@, i as int);
        }
        let r = self.entries.remove(i);
        assert(self.pairs() =~= old(self).pairs().remove(i as int));
        r
    }
}

/// What a text is mapped to is found again, in place of what it was mapped to before; the other texts stay
/// mapped as they were.
pub proof fn law_mapped_value_is_found<V>(
    map: &mut TextMap<V>,
    key: String,
    v: V,
    other: &str,
    before: Option<&V>,
    after: Option<&V>,
    there: bool,
)
    requires
        call_ensures(TextMap::<V>::insert, (map, key, v), ()),
        call_ensures(TextMap::<V>::get, (&*old(map), other), before),
        call_ensures(TextMap::<V>::get, (&*final(map), other), after),
        call_ensures(TextMap::<V>::contains, (&*final(map), other), there),
    ensures
        other@ == key@ ==> after is Some && *after->Some_0 == v,
        other@ != key@ ==> (before is Some <==> after is Some) && (before is Some
            ==> *after->Some_0 == *before->Some_0),
        there <==> after is Some,
{
}

/// What is taken out is handed out and found no more; the other texts stay mapped as they were.
pub proof fn law_removed_value_is_gone<V>(
    map: &mut TextMap<V>,
    key: &str,
    r: Option<V>,
    was: Option<&V>,
    other: &str,
    before: Option<&V>,
    after: Option<&V>,
)
    requires
        call_ensures(TextMap::<V>::remove, (map, key), r),
        call_ensures(TextMap::<V>::get, (&*old(map), key), was),
        call_ensures(TextMap::<V>::get, (&*old(map), other), before),
        call_ensures(TextMap::<V>::get, (&*final(map), other), after),
    ensures
        r is Some <==> was is Some,
        r is Some ==> r->Some_0 == *was->Some_0,
        other@ == key@ ==> after is None,
        other@ != key@ ==> (before is Some <==> after is Some) && (before is Some
            ==> *after->Some_0 == *before->Some_0),
{
}

/// A new map is empty, and the keys of a map are listed in ascending order with what they are mapped to.
pub proof fn law_keys_are_listed_in_order<V>(
    made: TextMap<V>,
    empty: bool,
    map: &TextMap<V>,
    len: usize,
    i: usize,
    j: usize,
    first: &String,
    second: &String,
    value: &V,
    found: Option<&V>,
    key: &str,
)
    requires
        call_ensures(TextMap::<V>::new, (), made),
        call_ensures(TextMap::<V>::is_empty, (&made,), empty),
        map.wf(),
        call_ensures(TextMap::<V>::len, (map,), len),
        i < j < len,
        call_ensures(TextMap::<V>::key_at, (map, i), first),
        call_ensures(TextMap::<V>::key_at, (map, j), second),
        call_ensures(TextMap::<V>::value_at, (map, i), value),
        key@ == first@,
        call_ensures(TextMap::<V>::get, (map, key), found),
    ensures
        empty,
        text_lt(first@, second@),
        found is Some && *found->Some_0 == *value,
{
    map.lemma_pairs();
}

} // verus!
