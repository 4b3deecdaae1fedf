//! An ordered string-keyed table: the persistent record store, modelled as a
//! vector of pairs kept strictly sorted by the UTF-8 bytes of the key. It
//! offers lookup, insert-if-absent, upsert, and cursor pagination, each with
//! an exact contract, and the pagination laws are proved at the bottom.

use vstd::prelude::*;
use vstd::utf8::encode_utf8;
use vstd::utf8::encode_utf8_decode_utf8;
use crate::bytes::{bytes_eq, bytes_lt, lex_lt};
use crate::bytes::{lemma_lex_irreflexive, lemma_lex_transitive, lemma_lex_trichotomy};

verus! {

/// Order on keys: byte-lexicographic order of their UTF-8 encodings.
pub open spec fn key_lt(a: Seq<char>, b: Seq<char>) -> bool {
    lex_lt(encode_utf8(a), encode_utf8(b))
}

pub proof fn lemma_key_irreflexive(a: Seq<char>)
    ensures
        !key_lt(a, a),
{
    lemma_lex_irreflexive(encode_utf8(a));
}

pub proof fn lemma_key_transitive(a: Seq<char>, b: Seq<char>, c: Seq<char>)
    requires
        key_lt(a, b),
        key_lt(b, c),
    ensures
        key_lt(a, c),
{
    lemma_lex_transitive(encode_utf8(a), encode_utf8(b), encode_utf8(c));
}

/// Two keys are equal or ordered strictly one way; rests on UTF-8 encoding
/// being injective.
pub proof fn lemma_key_trichotomy(a: Seq<char>, b: Seq<char>)
    ensures
        key_lt(a, b) || key_lt(b, a) || a == b,
{
    lemma_lex_trichotomy(encode_utf8(a), encode_utf8(b));
    if encode_utf8(a) =~= encode_utf8(b) {
        encode_utf8_decode_utf8(a);
        encode_utf8_decode_utf8(b);
    }
}

pub proof fn lemma_key_asymmetric(a: Seq<char>, b: Seq<char>)
    requires
        key_lt(a, b),
    ensures
        !key_lt(b, a),
        a != b,
{
    if key_lt(b, a) {
        lemma_key_transitive(a, b, a);
        lemma_key_irreflexive(a);
    }
    lemma_key_irreflexive(a);
}

/// Equality of two strings, decided on their bytes.
pub fn str_eq(a: &str, b: &str) -> (r: bool)
    ensures
        r == (a@ == b@),
{
    let r = bytes_eq(a.as_bytes(), b.as_bytes());
    proof {
        if r {
            encode_utf8_decode_utf8(a@);
            encode_utf8_decode_utf8(b@);
        }
    }
    r
}

/// Strict key order of two strings, decided on their bytes.
pub fn str_lt(a: &str, b: &str) -> (r: bool)
    ensures
        r == key_lt(a@, b@),
{
    bytes_lt(a.as_bytes(), b.as_bytes())
}

/// The table's entries as ghost pairs of key characters and value.
pub open spec fn pairs_view<T>(s: Seq<(String, T)>) -> Seq<(Seq<char>, T)> {
    s.map(|i: int, p: (String, T)| (p.0@, p.1))
}

/// Keys strictly ascending.
pub open spec fn sorted_keys<T>(m: Seq<(Seq<char>, T)>) -> bool {
    forall|i: int, j: int| 0 <= i < j < m.len() ==> key_lt(m[i].0, m[j].0)
}

/// The value under `k`, front to back.
pub open spec fn spec_lookup<T>(m: Seq<(Seq<char>, T)>, k: Seq<char>) -> Option<T>
    decreases m.len(),
{
    if m.len() == 0 {
        None
    } else if m[0].0 == k {
        Some(m[0].1)
    } else {
        spec_lookup(m.drop_first(), k)
    }
}

pub open spec fn spec_contains<T>(m: Seq<(Seq<char>, T)>, k: Seq<char>) -> bool {
    spec_lookup(m, k) is Some
}

/// `m` with `(k, v)` inserted in key order; meaningful when `k` is absent.
pub open spec fn spec_insert<T>(m: Seq<(Seq<char>, T)>, k: Seq<char>, v: T) -> Seq<(Seq<char>, T)>
    decreases m.len(),
{
    if m.len() == 0 {
        seq![(k, v)]
    } else if key_lt(k, m[0].0) {
        seq![(k, v)] + m
    } else {
        seq![m[0]] + spec_insert(m.drop_first(), k, v)
    }
}

/// `m` with the value under `k` set to `v`, inserting in key order when `k`
/// is absent.
pub open spec fn spec_upsert<T>(m: Seq<(Seq<char>, T)>, k: Seq<char>, v: T) -> Seq<(Seq<char>, T)>
    decreases m.len(),
{
    if m.len() == 0 {
        seq![(k, v)]
    } else if m[0].0 == k {
        seq![(k, v)] + m.drop_first()
    } else if key_lt(k, m[0].0) {
        seq![(k, v)] + m
    } else {
        seq![m[0]] + spec_upsert(m.drop_first(), k, v)
    }
}

/// A looked-up value sits in some entry.
pub proof fn lemma_lookup_entry<T>(m: Seq<(Seq<char>, T)>, k: Seq<char>)
    ensures
        spec_lookup(m, k) matches Some(v) ==> exists|i: int| 0 <= i < m.len() && m[i] == (k, v),
    decreases m.len(),
{
    if m.len() > 0 && m[0].0 != k {
        lemma_lookup_entry(m.drop_first(), k);
        match spec_lookup(m, k) {
            Some(v) => {
                let i = choose|i: int|
                    0 <= i < m.drop_first().len() && m.drop_first()[i] == (k, v);
                assert(m[i + 1] == (k, v));
            },
            None => {},
        }
    }
}

/// Every entry of an insert is the new pair or one of the old entries.
pub proof fn lemma_insert_entries<T>(m: Seq<(Seq<char>, T)>, k: Seq<char>, v: T)
    ensures
        forall|i: int|
            0 <= i < spec_insert(m, k, v).len() ==> (#[trigger] spec_insert(m, k, v)[i] == (k, v)
                || exists|j: int| 0 <= j < m.len() && spec_insert(m, k, v)[i] == #[trigger] m[j]),
    decreases m.len(),
{
    let w = spec_insert(m, k, v);
    if m.len() == 0 {
    } else if key_lt(k, m[0].0) {
        assert forall|i: int| 0 <= i < w.len() implies (w[i] == (k, v) || exists|j: int|
            0 <= j < m.len() && w[i] == #[trigger] m[j]) by {
            if i > 0 {
                assert(w[i] == m[i - 1]);
            }
        }
    } else {
        lemma_insert_entries(m.drop_first(), k, v);
        let rest = spec_insert(m.drop_first(), k, v);
        assert forall|i: int| 0 <= i < w.len() implies (w[i] == (k, v) || exists|j: int|
            0 <= j < m.len() && w[i] == #[trigger] m[j]) by {
            if i == 0 {
                assert(w[0] == m[0]);
            } else {
                assert(w[i] == rest[i - 1]);
                if rest[i - 1] != (k, v) {
                    let j = choose|j: int|
                        0 <= j < m.drop_first().len() && rest[i - 1] == m.drop_first()[j];
                    assert(w[i] == m[j + 1]);
                }
            }
        }
    }
}

/// Every entry of an upsert is the new pair or one of the old entries.
pub proof fn lemma_upsert_entries<T>(m: Seq<(Seq<char>, T)>, k: Seq<char>, v: T)
    ensures
        forall|i: int|
            0 <= i < spec_upsert(m, k, v).len() ==> (#[trigger] spec_upsert(m, k, v)[i] == (k, v)
                || exists|j: int| 0 <= j < m.len() && spec_upsert(m, k, v)[i] == #[trigger] m[j]),
    decreases m.len(),
{
    let w = spec_upsert(m, k, v);
    if m.len() == 0 {
    } else if m[0].0 == k || key_lt(k, m[0].0) {
        assert forall|i: int| 0 <= i < w.len() implies (w[i] == (k, v) || exists|j: int|
            0 <= j < m.len() && w[i] == #[trigger] m[j]) by {
            if i > 0 {
                if m[0].0 == k {
                    assert(w[i] == m[i]);
                } else {
                    assert(w[i] == m[i - 1]);
                }
            }
        }
    } else {
        lemma_upsert_entries(m.drop_first(), k, v);
        let rest = spec_upsert(m.drop_first(), k, v);
        assert forall|i: int| 0 <= i < w.len() implies (w[i] == (k, v) || exists|j: int|
            0 <= j < m.len() && w[i] == #[trigger] m[j]) by {
            if i == 0 {
                assert(w[0] == m[0]);
            } else {
                assert(w[i] == rest[i - 1]);
                if rest[i - 1] != (k, v) {
                    let j = choose|j: int|
                        0 <= j < m.drop_first().len() && rest[i - 1] == m.drop_first()[j];
                    assert(w[i] == m[j + 1]);
                }
            }
        }
    }
}

/// An inserted key is found, with its value.
pub proof fn lemma_insert_lookup<T>(m: Seq<(Seq<char>, T)>, k: Seq<char>, v: T)
    requires
        !spec_contains(m, k),
    ensures
        spec_lookup(spec_insert(m, k, v), k) == Some(v),
    decreases m.len(),
{
    if m.len() == 0 {
    } else if key_lt(k, m[0].0) {
        lemma_key_irreflexive(k);
        lemma_key_asymmetric(k, m[0].0);
        assert((seq![(k, v)] + m)[0].0 == k);
    } else {
        let w = seq![m[0]] + spec_insert(m.drop_first(), k, v);
        assert(w[0] == m[0]);
        assert(m[0].0 != k);
        assert(w.drop_first() =~= spec_insert(m.drop_first(), k, v));
        lemma_insert_lookup(m.drop_first(), k, v);
    }
}

/// A key is looked up exactly when some entry carries it.
pub proof fn lemma_lookup_index<T>(m: Seq<(Seq<char>, T)>, k: Seq<char>)
    ensures
        spec_contains(m, k) <==> exists|i: int| 0 <= i < m.len() && m[i].0 == k,
    decreases m.len(),
{
    if m.len() > 0 && m[0].0 != k {
        lemma_lookup_index(m.drop_first(), k);
        if spec_contains(m.drop_first(), k) {
            let i = choose|i: int| 0 <= i < m.drop_first().len() && m.drop_first()[i].0 == k;
            assert(m[i + 1].0 == k);
        }
        if exists|i: int| 0 <= i < m.len() && m[i].0 == k {
            let i = choose|i: int| 0 <= i < m.len() && m[i].0 == k;
            assert(m.drop_first()[i - 1].0 == k);
        }
    }
}

/// Inserting at the position where every earlier key is smaller and the next
/// key is larger is exactly the ordered insert.
proof fn lemma_insert_at<T>(m: Seq<(Seq<char>, T)>, k: Seq<char>, v: T, i: int)
    requires
        0 <= i <= m.len(),
        forall|j: int| 0 <= j < i ==> key_lt(#[trigger] m[j].0, k),
        i < m.len() ==> key_lt(k, m[i].0),
    ensures
        spec_insert(m, k, v) =~= m.take(i) + seq![(k, v)] + m.skip(i),
    decreases i,
{
    if i == 0 {
        if m.len() > 0 {
            assert(key_lt(k, m[0].0));
        }
        assert(spec_insert(m, k, v) =~= m.take(0) + seq![(k, v)] + m.skip(0));
    } else {
        lemma_key_asymmetric(m[0].0, k);
        let rest = m.drop_first();
        assert(forall|j: int| 0 <= j < i - 1 ==> key_lt(#[trigger] rest[j].0, k)) by {
            assert(forall|j: int| 0 <= j < i - 1 ==> rest[j] == m[j + 1]);
        }
        lemma_insert_at(rest, k, v, i - 1);
        assert(spec_insert(m, k, v) =~= m.take(i) + seq![(k, v)] + m.skip(i));
    }
}

/// Replacing the entry whose key already is `k` is exactly the upsert.
proof fn lemma_upsert_found<T>(m: Seq<(Seq<char>, T)>, k: Seq<char>, v: T, i: int)
    requires
        0 <= i < m.len(),
        forall|j: int| 0 <= j < i ==> key_lt(#[trigger] m[j].0, k),
        m[i].0 == k,
    ensures
        spec_upsert(m, k, v) =~= m.update(i, (k, v)),
    decreases i,
{
    if i == 0 {
        assert(spec_upsert(m, k, v) =~= m.update(0, (k, v)));
    } else {
        lemma_key_asymmetric(m[0].0, k);
        let rest = m.drop_first();
        assert(forall|j: int| 0 <= j < i - 1 ==> key_lt(#[trigger] rest[j].0, k)) by {
            assert(forall|j: int| 0 <= j < i - 1 ==> rest[j] == m[j + 1]);
        }
        assert(rest[i - 1].0 == k);
        lemma_upsert_found(rest, k, v, i - 1);
        assert(spec_upsert(m, k, v) =~= m.update(i, (k, v)));
    }
}

/// When `k` is absent the upsert coincides with the ordered insert.
proof fn lemma_upsert_absent<T>(m: Seq<(Seq<char>, T)>, k: Seq<char>, v: T)
    requires
        !spec_contains(m, k),
    ensures
        spec_upsert(m, k, v) == spec_insert(m, k, v),
    decreases m.len(),
{
    if m.len() > 0 && !key_lt(k, m[0].0) {
        lemma_upsert_absent(m.drop_first(), k, v);
    }
}

/// An ordered string-keyed table of copyable values.
pub struct StrTable<T> {
    entries: Vec<(String, T)>,
}

impl<T> View for StrTable<T> {
    type V = Seq<(Seq<char>, T)>;

    closed spec fn view(&self) -> Seq<(Seq<char>, T)> {
        pairs_view(self.entries@)
    }
}

impl<T: Copy> StrTable<T> {
    /// Keys strictly ascending; established by `new` and kept by every
    /// operation.
    pub open spec fn wf(&self) -> bool {
        sorted_keys(self@)
    }

    pub fn new() -> (r: Self)
        ensures
            r.wf(),
            r@ == Seq::<(Seq<char>, T)>::empty(),
    {
        let r = StrTable { entries: Vec::new() };
        proof {
            assert(r@ =~= Seq::<(Seq<char>, T)>::empty());
        }
        r
    }

    pub fn len(&self) -> (r: usize)
        ensures
            r == self@.len(),
    {
        self.entries.len()
    }

    /// An independent copy with the same entries.
    pub fn duplicate(&self) -> (r: Self)
        ensures
            r@ == self@,
    {
        let n = self.entries.len();
        let mut entries: Vec<(String, T)> = Vec::new();
        let mut i: usize = 0;
        while i < n
            invariant
                0 <= i <= n,
                n == self.entries@.len(),
                entries@.len() == i,
                forall|j: int| 0 <= j < i ==> #[trigger] entries@[j] == self.entries@[j],
            decreases n - i,
        {
            let key = self.entries[i].0.clone();
            proof {
                assert(key == self.entries@[i as int].0);
            }
            entries.push((key, self.entries[i].1));
            i = i + 1;
        }
        let r = StrTable { entries };
        proof {
            assert(r@ =~= self@);
        }
        r
    }

    /// The value stored under `key`, if any.
    pub fn get(&self, key: &str) -> (r: Option<T>)
        ensures
            r == spec_lookup(self@, key@),
    {
        let n = self.entries.len();
        let mut i: usize = 0;
        proof {
            assert(self@.skip(0) =~= self@);
        }
        while i < n
            invariant
                0 <= i <= n,
                n == self@.len(),
                self@.len() == self.entries@.len(),
                self@ == pairs_view(self.entries@),
                spec_lookup(self@, key@) == spec_lookup(self@.skip(i as int), key@),
            decreases n - i,
        {
            proof {
                assert(self@.skip(i as int)[0] == self@[i as int]);
                assert(self@.skip(i as int).drop_first() =~= self@.skip(i + 1));
            }
            if str_eq(self.entries[i].0.as_str(), key) {
                return Some(self.entries[i].1);
            }
            i = i + 1;
        }
        proof {
            assert(self@.skip(n as int) =~= Seq::<(Seq<char>, T)>::empty());
        }
        None
    }

    /// First index whose key is not yet past `key`, i.e. the ordered
    /// position of `key`; every earlier key is strictly smaller.
    fn find_slot(&self, key: &str) -> (i: usize)
        requires
            self.wf(),
        ensures
            0 <= i <= self@.len(),
            forall|j: int| 0 <= j < i ==> key_lt(#[trigger] self@[j].0, key@),
            i < self@.len() ==> !key_lt(self@[i as int].0, key@),
    {
        let n = self.entries.len();
        let mut i: usize = 0;
        while i < n
            invariant
                0 <= i <= n,
                n == self@.len(),
                self@.len() == self.entries@.len(),
                self@ == pairs_view(self.entries@),
                forall|j: int| 0 <= j < i ==> key_lt(#[trigger] self@[j].0, key@),
            decreases n - i,
        {
            if !str_lt(self.entries[i].0.as_str(), key) {
                return i;
            }
            i = i + 1;
        }
        i
    }

    /// Inserts `value` under `key` unless the key is already present;
    /// reports whether it inserted.
    pub fn try_insert(&mut self, key: &str, value: T) -> (r: bool)
        requires
            old(self).wf(),
        ensures
            final(self).wf(),
            r == !spec_contains(old(self)@, key@),
            r ==> final(self)@ == spec_insert(old(self)@, key@, value),
            !r ==> final(self)@ == old(self)@,
    {
        let ghost m = self@;
        let i = self.find_slot(key);
        if i < self.entries.len() && str_eq(self.entries[i].0.as_str(), key) {
            proof {
                lemma_lookup_index(m, key@);
            }
            return false;
        }
        proof {
            if i < m.len() {
                lemma_key_trichotomy(key@, m[i as int].0);
            }
            assert(!spec_contains(m, key@)) by {
                lemma_lookup_index(m, key@);
                if exists|j: int| 0 <= j < m.len() && m[j].0 == key@ {
                    let j = choose|j: int| 0 <= j < m.len() && m[j].0 == key@;
                    if j < i {
                        lemma_key_asymmetric(m[j].0, key@);
                    } else if j > i {
                        assert(key_lt(key@, m[i as int].0));
                        assert(key_lt(m[i as int].0, m[j].0));
                        lemma_key_transitive(key@, m[i as int].0, m[j].0);
                        lemma_key_asymmetric(key@, m[j].0);
                    }
                }
            }
            lemma_insert_at(m, key@, value, i as int);
        }
        self.entries.insert(i, (key.to_owned(), value));
        proof {
            assert(self@ =~= m.take(i as int) + seq![(key@, value)] + m.skip(i as int));
            assert(self@ == spec_insert(m, key@, value));
            assert forall|p: int, q: int| 0 <= p < q < self@.len() implies key_lt(
                self@[p].0,
                self@[q].0,
            ) by {
                lemma_slot_order(m, key@, value, i as int, p, q);
            }
        }
        true
    }

    /// Sets the value under `key`, inserting the key when absent.
    pub fn set(&mut self, key: &str, value: T)
        requires
            old(self).wf(),
        ensures
            final(self).wf(),
            final(self)@ == spec_upsert(old(self)@, key@, value),
    {
        let ghost m = self@;
        let i = self.find_slot(key);
        if i < self.entries.len() && str_eq(self.entries[i].0.as_str(), key) {
            proof {
                lemma_upsert_found(m, key@, value, i as int);
            }
            self.entries.remove(i);
            self.entries.insert(i, (key.to_owned(), value));
            proof {
                assert(self@ =~= m.update(i as int, (key@, value)));
                assert(self@ == spec_upsert(m, key@, value));
                assert forall|p: int, q: int| 0 <= p < q < self@.len() implies key_lt(
                    self@[p].0,
                    self@[q].0,
                ) by {
                    assert(forall|t: int| 0 <= t < m.len() && t != i ==> self@[t] == m[t]);
                    if p == i {
                        assert(key_lt(m[p].0, m[q].0));
                    } else if q == i {
                        assert(key_lt(m[p].0, m[q].0));
                    }
                }
            }
        } else {
            proof {
                if i < m.len() {
                    lemma_key_trichotomy(key@, m[i as int].0);
                }
                assert(!spec_contains(m, key@)) by {
                    lemma_lookup_index(m, key@);
                    if exists|j: int| 0 <= j < m.len() && m[j].0 == key@ {
                        let j = choose|j: int| 0 <= j < m.len() && m[j].0 == key@;
                        if j < i {
                            lemma_key_asymmetric(m[j].0, key@);
                        } else if j > i {
                            lemma_key_transitive(key@, m[i as int].0, m[j].0);
                            lemma_key_asymmetric(key@, m[j].0);
                        }
                    }
                }
                lemma_upsert_absent(m, key@, value);
                lemma_insert_at(m, key@, value, i as int);
            }
            self.entries.insert(i, (key.to_owned(), value));
            proof {
                assert(self@ =~= m.take(i as int) + seq![(key@, value)] + m.skip(i as int));
                assert(self@ == spec_upsert(m, key@, value));
                assert forall|p: int, q: int| 0 <= p < q < self@.len() implies key_lt(
                    self@[p].0,
                    self@[q].0,
                ) by {
                    lemma_slot_order(m, key@, value, i as int, p, q);
                }
            }
        }
    }
}

/// Whether a key lies past the pagination cursor.
pub open spec fn key_passes(start: Option<Seq<char>>, k: Seq<char>) -> bool {
    match start {
        None => true,
        Some(s) => key_lt(s, k),
    }
}

/// Number of leading entries not yet past the cursor.
pub open spec fn spec_skip_count<T>(m: Seq<(Seq<char>, T)>, start: Option<Seq<char>>) -> int
    decreases m.len(),
{
    if m.len() == 0 {
        0
    } else if key_passes(start, m[0].0) {
        0
    } else {
        1 + spec_skip_count(m.drop_first(), start)
    }
}

pub proof fn lemma_skip_count_bounds<T>(m: Seq<(Seq<char>, T)>, start: Option<Seq<char>>)
    ensures
        0 <= spec_skip_count(m, start) <= m.len(),
    decreases m.len(),
{
    if m.len() > 0 && !key_passes(start, m[0].0) {
        lemma_skip_count_bounds(m.drop_first(), start);
    }
}

/// The page of at most `limit` entries strictly past `start`, in table order.
pub open spec fn spec_page<T>(
    m: Seq<(Seq<char>, T)>,
    start: Option<Seq<char>>,
    limit: nat,
) -> Seq<(Seq<char>, T)> {
    let b = spec_skip_count(m, start);
    let n = if limit <= m.len() - b {
        limit as int
    } else {
        m.len() - b
    };
    m.subrange(b, b + n)
}

/// The skip count is the first position past the cursor.
proof fn lemma_skip_count_at<T>(m: Seq<(Seq<char>, T)>, start: Option<Seq<char>>, j: int)
    requires
        0 <= j <= m.len(),
        forall|t: int| 0 <= t < j ==> !key_passes(start, #[trigger] m[t].0),
        j < m.len() ==> key_passes(start, m[j].0),
    ensures
        spec_skip_count(m, start) == j,
    decreases m.len(),
{
    if m.len() > 0 && !key_passes(start, m[0].0) {
        let rest = m.drop_first();
        assert(forall|t: int| 0 <= t < j - 1 ==> rest[t] == m[t + 1]);
        lemma_skip_count_at(rest, start, j - 1);
    }
}

/// After a full page, the cursor at its last key resumes exactly where the
/// page ended.
proof fn lemma_skip_count_after<T>(m: Seq<(Seq<char>, T)>, i: int)
    requires
        sorted_keys(m),
        0 <= i < m.len(),
    ensures
        spec_skip_count(m, Some(m[i].0)) == i + 1,
{
    assert forall|t: int| 0 <= t < i + 1 implies !key_passes(Some(m[i].0), #[trigger] m[t].0) by {
        if t < i {
            lemma_key_asymmetric(m[t].0, m[i].0);
        } else {
            lemma_key_irreflexive(m[i].0);
        }
    }
    lemma_skip_count_at(m, Some(m[i].0), i + 1);
}

impl<T: Copy> StrTable<T> {
    /// At most `limit` entries with keys strictly after `start_after`, in
    /// ascending key order.
    pub fn page(&self, start_after: Option<&str>, limit: usize) -> (r: Vec<(String, T)>)
        requires
            self.wf(),
        ensures
            pairs_view(r@) == spec_page(self@, start_view(start_after), limit as nat),
    {
        let ghost start = start_view(start_after);
        let n = self.entries.len();
        let mut i: usize = 0;
        while i < n && !Self::passes(start_after, self.entries[i].0.as_str())
            invariant
                0 <= i <= n,
                n == self@.len(),
                self@.len() == self.entries@.len(),
                self@ == pairs_view(self.entries@),
                start == start_view(start_after),
                forall|t: int| 0 <= t < i ==> !key_passes(start, #[trigger] self@[t].0),
            decreases n - i,
        {
            proof {
                assert(self@[i as int] == (self.entries@[i as int].0@, self.entries@[i as int].1));
            }
            i = i + 1;
        }
        proof {
            if i < n {
                assert(self@[i as int] == (self.entries@[i as int].0@, self.entries@[i as int].1));
            }
            lemma_skip_count_at(self@, start, i as int);
        }
        let ghost b = i as int;
        let mut out: Vec<(String, T)> = Vec::new();
        let mut t: usize = 0;
        while t < limit && i + t < n
            invariant
                0 <= t <= limit,
                i + t <= n,
                b == i as int,
                b == spec_skip_count(self@, start),
                n == self@.len(),
                self@.len() == self.entries@.len(),
                self@ == pairs_view(self.entries@),
                out@.len() == t,
                pairs_view(out@) =~= self@.subrange(b, b + t),
            decreases n - i - t,
        {
            let pair = (self.entries[i + t].0.clone(), self.entries[i + t].1);
            out.push(pair);
            proof {
                assert(pairs_view(out@) =~= self@.subrange(b, b + t + 1));
            }
            t = t + 1;
        }
        proof {
            if t == limit {
                assert(limit as int <= n - b);
            } else {
                assert(i + t == n);
            }
            assert(pairs_view(out@) =~= spec_page(self@, start, limit as nat));
        }
        out
    }

    fn passes(start_after: Option<&str>, key: &str) -> (r: bool)
        ensures
            r == key_passes(start_view(start_after), key@),
    {
        match start_after {
            None => true,
            Some(s) => str_lt(s, key),
        }
    }
}

/// The ghost cursor of an optional string.
pub open spec fn start_view(start_after: Option<&str>) -> Option<Seq<char>> {
    match start_after {
        None => None,
        Some(s) => Some(s@),
    }
}

/// Law: paging with no cursor and a limit of at least the table's size
/// returns every record, in order.
pub proof fn lemma_page_complete<T>(m: Seq<(Seq<char>, T)>, limit: nat)
    requires
        m.len() <= limit,
    ensures
        spec_page(m, None, limit) == m,
{
    assert(spec_skip_count(m, None) == 0);
    assert(spec_page(m, None, limit) =~= m);
}

/// Law: a page's entries are strictly ascending, and all lie strictly past
/// the cursor.
pub proof fn lemma_page_sorted<T>(m: Seq<(Seq<char>, T)>, start: Option<Seq<char>>, limit: nat)
    requires
        sorted_keys(m),
    ensures
        sorted_keys(spec_page(m, start, limit)),
        forall|t: int|
            0 <= t < spec_page(m, start, limit).len() ==> key_passes(
                start,
                #[trigger] spec_page(m, start, limit)[t].0,
            ),
{
    let b = spec_skip_count(m, start);
    lemma_skip_count_bounds(m, start);
    let p = spec_page(m, start, limit);
    assert forall|t: int| 0 <= t < p.len() implies key_passes(start, #[trigger] p[t].0) by {
        assert(p[t] == m[b + t]);
        if b < m.len() {
            assert(key_passes(start, m[b].0)) by {
                lemma_skip_count_first_passes(m, start);
            }
            if t > 0 {
                match start {
                    None => {},
                    Some(s) => {
                        lemma_key_transitive(s, m[b].0, m[b + t].0);
                    },
                }
            }
        }
    }
}

/// The entry right at the skip count, when it exists, is past the cursor.
proof fn lemma_skip_count_first_passes<T>(m: Seq<(Seq<char>, T)>, start: Option<Seq<char>>)
    requires
        spec_skip_count(m, start) < m.len(),
    ensures
        key_passes(start, m[spec_skip_count(m, start)].0),
    decreases m.len(),
{
    lemma_skip_count_bounds(m, start);
    if m.len() > 0 && !key_passes(start, m[0].0) {
        let rest = m.drop_first();
        let j = spec_skip_count(rest, start);
        lemma_skip_count_bounds(rest, start);
        lemma_skip_count_first_passes(rest, start);
        assert(rest[j] == m[j + 1]);
        assert(spec_skip_count(m, start) == j + 1);
    }
}

/// Law: cursor pagination has no gaps and no duplicates. When a page comes
/// back full, asking for the next page with the last returned key as the
/// cursor continues the enumeration exactly: the two pages concatenated are
/// the single page of the combined limit.
pub proof fn lemma_page_chain<T>(
    m: Seq<(Seq<char>, T)>,
    start: Option<Seq<char>>,
    n1: nat,
    n2: nat,
)
    requires
        sorted_keys(m),
        spec_page(m, start, n1).len() == n1,
        n1 > 0,
    ensures
        spec_page(m, start, n1) + spec_page(m, Some(spec_page(m, start, n1).last().0), n2)
            =~= spec_page(m, start, (n1 + n2) as nat),
{
    let b = spec_skip_count(m, start);
    lemma_skip_count_bounds(m, start);
    let p1 = spec_page(m, start, n1);
    assert(p1.last() == m[b + n1 - 1]);
    lemma_skip_count_after(m, b + n1 - 1);
    assert(spec_skip_count(m, Some(p1.last().0)) == b + n1);
}

/// Law: a short page means the enumeration is exhausted; the next page is
/// empty.
pub proof fn lemma_page_exhausted<T>(
    m: Seq<(Seq<char>, T)>,
    start: Option<Seq<char>>,
    n1: nat,
    n2: nat,
)
    requires
        sorted_keys(m),
        spec_page(m, start, n1).len() < n1,
        spec_page(m, start, n1).len() > 0,
    ensures
        spec_page(m, Some(spec_page(m, start, n1).last().0), n2) =~= Seq::<(Seq<char>, T)>::empty(),
{
    let b = spec_skip_count(m, start);
    lemma_skip_count_bounds(m, start);
    let p1 = spec_page(m, start, n1);
    assert(p1.last() == m[b + p1.len() - 1]);
    assert(b + p1.len() == m.len());
    lemma_skip_count_after(m, m.len() - 1);
}

/// Order of any two entries after inserting `(k, v)` at slot `i` of the
/// sorted table `m`.
proof fn lemma_slot_order<T>(m: Seq<(Seq<char>, T)>, k: Seq<char>, v: T, i: int, p: int, q: int)
    requires
        sorted_keys(m),
        0 <= i <= m.len(),
        forall|j: int| 0 <= j < i ==> key_lt(#[trigger] m[j].0, k),
        i < m.len() ==> key_lt(k, m[i].0),
        0 <= p < q < m.len() + 1,
    ensures
        key_lt(
            (m.take(i) + seq![(k, v)] + m.skip(i))[p].0,
            (m.take(i) + seq![(k, v)] + m.skip(i))[q].0,
        ),
{
    let w = m.take(i) + seq![(k, v)] + m.skip(i);
    assert(forall|t: int| 0 <= t < i ==> w[t] == m[t]);
    assert(w[i] == (k, v));
    assert(forall|t: int| i < t < m.len() + 1 ==> w[t] == m[t - 1]);
    if p < i && q == i {
        assert(key_lt(w[p].0, w[q].0));
    } else if p == i && q > i {
        if q - 1 > i {
            lemma_key_transitive(k, m[i].0, m[q - 1].0);
        }
    } else if p < i && q > i {
        if q - 1 == i {
            lemma_key_transitive(m[p].0, k, m[i].0);
        } else {
            lemma_key_transitive(m[p].0, k, m[i].0);
            lemma_key_transitive(m[p].0, m[i].0, m[q - 1].0);
        }
    }
}

} // verus!
