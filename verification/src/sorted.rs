//! String-keyed tables kept in byte-lexicographic key order, the order in
//! which `String` keys compare.

use vstd::prelude::*;
use vstd::string::StringSliceAdditionalSpecFns;
use vstd::utf8::{encode_utf8, encode_utf8_decode_utf8};

use crate::keyed::{has_key, key_map, keys_distinct, lemma_key_map_at};

verus! {

/// Lexicographic order on byte strings: a proper prefix comes first.
pub open spec fn lex_less(a: Seq<u8>, b: Seq<u8>) -> bool
    decreases a.len(),
{
    if a.len() == 0 {
        b.len() > 0
    } else if b.len() == 0 {
        false
    } else if a[0] != b[0] {
        a[0] < b[0]
    } else {
        lex_less(a.skip(1), b.skip(1))
    }
}

pub proof fn lemma_lex_irreflexive(a: Seq<u8>)
    ensures
        !lex_less(a, a),
    decreases a.len(),
{
    if a.len() > 0 {
        lemma_lex_irreflexive(a.skip(1));
    }
}

pub proof fn lemma_lex_asymmetric(a: Seq<u8>, b: Seq<u8>)
    ensures
        !(lex_less(a, b) && lex_less(b, a)),
    decreases a.len(),
{
    if a.len() > 0 && b.len() > 0 && a[0] == b[0] {
        lemma_lex_asymmetric(a.skip(1), b.skip(1));
    }
}

pub proof fn lemma_lex_total(a: Seq<u8>, b: Seq<u8>)
    ensures
        a == b || lex_less(a, b) || lex_less(b, a),
    decreases a.len(),
{
    if a.len() > 0 && b.len() > 0 && a[0] == b[0] {
        lemma_lex_total(a.skip(1), b.skip(1));
        if a.skip(1) == b.skip(1) {
            assert(a =~= seq![a[0]] + a.skip(1));
            assert(b =~= seq![b[0]] + b.skip(1));
        }
    } else if a.len() == 0 && b.len() == 0 {
        assert(a =~= b);
    }
}

pub proof fn lemma_lex_transitive(a: Seq<u8>, b: Seq<u8>, c: Seq<u8>)
    requires
        lex_less(a, b),
        lex_less(b, c),
    ensures
        lex_less(a, c),
    decreases a.len(),
{
    if a.len() > 0 && b.len() > 0 && c.len() > 0 && a[0] == b[0] && b[0] == c[0] {
        lemma_lex_transitive(a.skip(1), b.skip(1), c.skip(1));
    }
}

/// The bytes by which a key is ordered.
pub open spec fn key_bytes(k: Seq<char>) -> Seq<u8> {
    encode_utf8(k)
}

/// Keys strictly increase along the table.
pub open spec fn sorted_by_key<T>(s: Seq<(String, T)>) -> bool {
    forall|i: int, j: int| 0 <= i < j < s.len() ==> lex_less(key_bytes(#[trigger] s[i].0@), key_bytes(#[trigger] s[j].0@))
}

pub proof fn lemma_sorted_distinct<T>(s: Seq<(String, T)>)
    requires
        sorted_by_key(s),
    ensures
        keys_distinct(s),
{
    assert forall|i: int, j: int| 0 <= i < s.len() && 0 <= j < s.len() && i != j implies #[trigger] s[i].0@
        != #[trigger] s[j].0@ by {
        if i < j {
            lemma_lex_irreflexive(key_bytes(s[i].0@));
        } else {
            lemma_lex_irreflexive(key_bytes(s[j].0@));
        }
    }
}

/// Inserting a key at its order position keeps the table sorted.
pub proof fn lemma_sorted_insert<T>(s: Seq<(String, T)>, p: int, id: String, v: T)
    requires
        sorted_by_key(s),
        0 <= p <= s.len(),
        forall|i: int| 0 <= i < p ==> lex_less(key_bytes(#[trigger] s[i].0@), key_bytes(id@)),
        forall|i: int| p <= i < s.len() ==> lex_less(key_bytes(id@), key_bytes(#[trigger] s[i].0@)),
    ensures
        sorted_by_key(s.insert(p, (id, v))),
{
    let t = s.insert(p, (id, v));
    assert forall|i: int, j: int| 0 <= i < j < t.len() implies lex_less(key_bytes(#[trigger] t[i].0@), key_bytes(
        #[trigger] t[j].0@,
    )) by {
        if j < p {
            assert(t[i] == s[i] && t[j] == s[j]);
        } else if j == p {
            assert(t[i] == s[i]);
        } else if i < p {
            assert(t[i] == s[i] && t[j] == s[j - 1]);
        } else if i == p {
            assert(t[j] == s[j - 1]);
        } else {
            assert(t[i] == s[i - 1] && t[j] == s[j - 1]);
        }
    }
}

/// Updating the value of an entry keeps the table sorted.
pub proof fn lemma_sorted_update<T>(s: Seq<(String, T)>, i: int, v: T)
    requires
        sorted_by_key(s),
        0 <= i < s.len(),
    ensures
        sorted_by_key(s.update(i, (s[i].0, v))),
{
    let t = s.update(i, (s[i].0, v));
    assert forall|a: int, b: int| 0 <= a < b < t.len() implies lex_less(key_bytes(#[trigger] t[a].0@), key_bytes(
        #[trigger] t[b].0@,
    )) by {
        assert(t[a].0 == s[a].0 && t[b].0 == s[b].0);
    }
}

/// Removing an entry keeps the table sorted.
pub proof fn lemma_sorted_remove<T>(s: Seq<(String, T)>, i: int)
    requires
        sorted_by_key(s),
        0 <= i < s.len(),
    ensures
        sorted_by_key(s.remove(i)),
{
    let t = s.remove(i);
    assert forall|a: int, b: int| 0 <= a < b < t.len() implies lex_less(key_bytes(#[trigger] t[a].0@), key_bytes(
        #[trigger] t[b].0@,
    )) by {
        let sa = if a < i { a } else { a + 1 };
        let sb = if b < i { b } else { b + 1 };
        assert(t[a] == s[sa] && t[b] == s[sb]);
    }
}

fn bytes_less(a: &[u8], b: &[u8]) -> (r: bool)
    ensures
        r == lex_less(a@, b@),
{
    let mut i: usize = 0;
    assert(a@.skip(0) =~= a@ && b@.skip(0) =~= b@);
    while i < a.len() && i < b.len() && a[i] == b[i]
        invariant
            i <= a@.len(),
            i <= b@.len(),
            lex_less(a@, b@) == lex_less(a@.skip(i as int), b@.skip(i as int)),
        decreases a@.len() - i,
    {
        assert(a@.skip(i as int).skip(1) =~= a@.skip(i + 1));
        assert(b@.skip(i as int).skip(1) =~= b@.skip(i + 1));
        i = i + 1;
    }
    if i == a.len() {
        i < b.len()
    } else if i == b.len() {
        false
    } else {
        a[i] < b[i]
    }
}

fn bytes_equal(a: &[u8], b: &[u8]) -> (r: bool)
    ensures
        r == (a@ == b@),
{
    if a.len() != b.len() {
        return false;
    }
    let mut i: usize = 0;
    while i < a.len()
        invariant
            a@.len() == b@.len(),
            i <= a@.len(),
            forall|j: int| 0 <= j < i ==> a@[j] == b@[j],
        decreases a@.len() - i,
    {
        if a[i] != b[i] {
            return false;
        }
        i = i + 1;
    }
    assert(a@ =~= b@);
    true
}

/// Where `key` is, or where it would go, in a sorted table.
pub fn locate<T>(entries: &Vec<(String, T)>, key: &str) -> (r: Result<usize, usize>)
    requires
        sorted_by_key(entries@),
    ensures
        match r {
            Ok(i) => i < entries@.len() && entries@[i as int].0@ == key@,
            Err(p) => {
                &&& p <= entries@.len()
                &&& !has_key(entries@, key@)
                &&& forall|i: int| 0 <= i < p ==> lex_less(key_bytes(#[trigger] entries@[i].0@), key_bytes(key@))
                &&& forall|i: int| p <= i < entries@.len() ==> lex_less(key_bytes(key@), key_bytes(#[trigger] entries@[i].0@))
            },
        },
{
    let kb = key.as_bytes();
    let mut i: usize = 0;
    while i < entries.len()
        invariant
            i <= entries@.len(),
            sorted_by_key(entries@),
            kb@ == key_bytes(key@),
            forall|j: int| 0 <= j < i ==> lex_less(key_bytes(#[trigger] entries@[j].0@), key_bytes(key@)),
        decreases entries@.len() - i,
    {
        let eb = entries[i].0.as_str().as_bytes();
        if bytes_equal(eb, kb) {
            proof {
                encode_utf8_decode_utf8(entries@[i as int].0@);
                encode_utf8_decode_utf8(key@);
            }
            return Ok(i);
        }
        if bytes_less(kb, eb) {
            proof {
                assert forall|j: int| i <= j < entries@.len() implies lex_less(
                    key_bytes(key@),
                    key_bytes(#[trigger] entries@[j].0@),
                ) by {
                    if j > i {
                        lemma_lex_transitive(key_bytes(key@), key_bytes(entries@[i as int].0@), key_bytes(entries@[j].0@));
                    }
                }
                assert forall|j: int| 0 <= j < entries@.len() implies #[trigger] entries@[j].0@ != key@ by {
                    lemma_lex_irreflexive(key_bytes(key@));
                }
            }
            return Err(i);
        }
        proof {
            lemma_lex_total(kb@, eb@);
        }
        i = i + 1;
    }
    proof {
        assert forall|j: int| 0 <= j < entries@.len() implies #[trigger] entries@[j].0@ != key@ by {
            lemma_lex_irreflexive(key_bytes(key@));
        }
    }
    Err(i)
}


// ----- association lists over key views -----------------------------------

/// Keys (by their bytes) strictly increase along the list.
pub open spec fn sorted_keys<T>(s: Seq<(Seq<char>, T)>) -> bool {
    forall|i: int, j: int| 0 <= i < j < s.len() ==> lex_less(key_bytes(#[trigger] s[i].0), key_bytes(#[trigger] s[j].0))
}

/// The value stored under `k` (the first entry with that key).
pub open spec fn lookup<T>(s: Seq<(Seq<char>, T)>, k: Seq<char>) -> Option<T>
    decreases s.len(),
{
    if s.len() == 0 {
        None
    } else if s[0].0 == k {
        Some(s[0].1)
    } else {
        lookup(s.skip(1), k)
    }
}

/// The list with `k` bound to `v`, in key order.
pub open spec fn sorted_put<T>(s: Seq<(Seq<char>, T)>, k: Seq<char>, v: T) -> Seq<(Seq<char>, T)>
    decreases s.len(),
{
    if s.len() == 0 {
        seq![(k, v)]
    } else if s[0].0 == k {
        s.update(0, (k, v))
    } else if lex_less(key_bytes(k), key_bytes(s[0].0)) {
        seq![(k, v)] + s
    } else {
        seq![s[0]] + sorted_put(s.skip(1), k, v)
    }
}

/// The list without `k`.
pub open spec fn assoc_remove<T>(s: Seq<(Seq<char>, T)>, k: Seq<char>) -> Seq<(Seq<char>, T)>
    decreases s.len(),
{
    if s.len() == 0 {
        s
    } else if s[0].0 == k {
        s.skip(1)
    } else {
        seq![s[0]] + assoc_remove(s.skip(1), k)
    }
}

pub proof fn lemma_key_bytes_injective(a: Seq<char>, b: Seq<char>)
    requires
        key_bytes(a) == key_bytes(b),
    ensures
        a == b,
{
    encode_utf8_decode_utf8(a);
    encode_utf8_decode_utf8(b);
}

proof fn lemma_sorted_keys_skip<T>(s: Seq<(Seq<char>, T)>)
    requires
        sorted_keys(s),
        s.len() > 0,
    ensures
        sorted_keys(s.skip(1)),
{
    assert forall|i: int, j: int| 0 <= i < j < s.skip(1).len() implies lex_less(
        key_bytes(#[trigger] s.skip(1)[i].0),
        key_bytes(#[trigger] s.skip(1)[j].0),
    ) by {
        assert(s.skip(1)[i] == s[i + 1] && s.skip(1)[j] == s[j + 1]);
    }
}

pub proof fn lemma_sorted_put_found<T>(s: Seq<(Seq<char>, T)>, i: int, k: Seq<char>, v: T)
    requires
        sorted_keys(s),
        0 <= i < s.len(),
        s[i].0 == k,
    ensures
        sorted_put(s, k, v) == s.update(i, (k, v)),
    decreases i,
{
    if i > 0 {
        lemma_lex_irreflexive(key_bytes(k));
        assert(lex_less(key_bytes(s[0].0), key_bytes(s[i].0)));
        lemma_lex_asymmetric(key_bytes(s[0].0), key_bytes(k));
        lemma_sorted_keys_skip(s);
        lemma_sorted_put_found(s.skip(1), i - 1, k, v);
        assert(sorted_put(s, k, v) =~= s.update(i, (k, v)));
    }
}

pub proof fn lemma_sorted_put_absent<T>(s: Seq<(Seq<char>, T)>, p: int, k: Seq<char>, v: T)
    requires
        sorted_keys(s),
        0 <= p <= s.len(),
        forall|i: int| 0 <= i < p ==> lex_less(key_bytes(#[trigger] s[i].0), key_bytes(k)),
        forall|i: int| p <= i < s.len() ==> lex_less(key_bytes(k), key_bytes(#[trigger] s[i].0)),
    ensures
        sorted_put(s, k, v) == s.insert(p, (k, v)),
    decreases p,
{
    if s.len() == 0 {
        assert(sorted_put(s, k, v) =~= s.insert(p, (k, v)));
    } else if p == 0 {
        lemma_lex_irreflexive(key_bytes(k));
        assert(lex_less(key_bytes(k), key_bytes(s[0].0)));
        assert(s[0].0 != k);
        assert(sorted_put(s, k, v) =~= s.insert(p, (k, v)));
    } else {
        lemma_lex_irreflexive(key_bytes(k));
        assert(lex_less(key_bytes(s[0].0), key_bytes(k)));
        lemma_lex_asymmetric(key_bytes(s[0].0), key_bytes(k));
        lemma_sorted_keys_skip(s);
        let t = s.skip(1);
        assert forall|i: int| 0 <= i < p - 1 implies lex_less(key_bytes(#[trigger] t[i].0), key_bytes(k)) by {
            assert(t[i] == s[i + 1]);
        }
        assert forall|i: int| p - 1 <= i < t.len() implies lex_less(key_bytes(k), key_bytes(#[trigger] t[i].0)) by {
            assert(t[i] == s[i + 1]);
        }
        lemma_sorted_put_absent(t, p - 1, k, v);
        assert(sorted_put(s, k, v) =~= s.insert(p, (k, v)));
    }
}

pub proof fn lemma_assoc_remove_found<T>(s: Seq<(Seq<char>, T)>, i: int, k: Seq<char>)
    requires
        sorted_keys(s),
        0 <= i < s.len(),
        s[i].0 == k,
    ensures
        assoc_remove(s, k) == s.remove(i),
    decreases i,
{
    if i == 0 {
        assert(s.skip(1) =~= s.remove(0));
    } else {
        lemma_lex_irreflexive(key_bytes(k));
        assert(lex_less(key_bytes(s[0].0), key_bytes(s[i].0)));
        lemma_sorted_keys_skip(s);
        lemma_assoc_remove_found(s.skip(1), i - 1, k);
        assert(assoc_remove(s, k) =~= s.remove(i));
    }
}

pub proof fn lemma_assoc_remove_absent<T>(s: Seq<(Seq<char>, T)>, k: Seq<char>)
    requires
        forall|i: int| 0 <= i < s.len() ==> #[trigger] s[i].0 != k,
    ensures
        assoc_remove(s, k) == s,
    decreases s.len(),
{
    if s.len() > 0 {
        assert(s[0].0 != k);
        let t = s.skip(1);
        assert forall|i: int| 0 <= i < t.len() implies #[trigger] t[i].0 != k by {
            assert(t[i] == s[i + 1]);
        }
        lemma_assoc_remove_absent(t, k);
        assert(assoc_remove(s, k) =~= s);
    }
}

/// In a sorted list, `lookup` finds the one entry with the key.
pub proof fn lemma_lookup_at<T>(s: Seq<(Seq<char>, T)>, i: int)
    requires
        sorted_keys(s),
        0 <= i < s.len(),
    ensures
        lookup(s, s[i].0) == Some(s[i].1),
    decreases i,
{
    if i > 0 {
        lemma_lex_irreflexive(key_bytes(s[i].0));
        assert(lex_less(key_bytes(s[0].0), key_bytes(s[i].0)));
        lemma_sorted_keys_skip(s);
        assert(s.skip(1)[i - 1] == s[i]);
        lemma_lookup_at(s.skip(1), i - 1);
    }
}

/// A key that no entry carries has no value.
pub proof fn lemma_lookup_absent<T>(s: Seq<(Seq<char>, T)>, k: Seq<char>)
    requires
        forall|i: int| 0 <= i < s.len() ==> #[trigger] s[i].0 != k,
    ensures
        lookup(s, k) is None,
    decreases s.len(),
{
    if s.len() > 0 {
        assert(s[0].0 != k);
        let t = s.skip(1);
        assert forall|i: int| 0 <= i < t.len() implies #[trigger] t[i].0 != k by {
            assert(t[i] == s[i + 1]);
        }
        lemma_lookup_absent(t, k);
    }
}

/// Every key of `sorted_put(s, k, v)` is `k` or a key of `s`.
proof fn lemma_sorted_put_members<T>(s: Seq<(Seq<char>, T)>, k: Seq<char>, v: T, j: int)
    requires
        0 <= j < sorted_put(s, k, v).len(),
    ensures
        sorted_put(s, k, v)[j].0 == k || exists|a: int| 0 <= a < s.len() && s[a].0 == sorted_put(s, k, v)[j].0,
    decreases s.len(),
{
    let t = sorted_put(s, k, v);
    if s.len() == 0 {
    } else if s[0].0 == k {
        if j != 0 {
            assert(s[j].0 == t[j].0);
        }
    } else if lex_less(key_bytes(k), key_bytes(s[0].0)) {
        if j != 0 {
            assert(s[j - 1].0 == t[j].0);
        }
    } else {
        if j == 0 {
            assert(s[0].0 == t[0].0);
        } else {
            let u = s.skip(1);
            lemma_sorted_put_members(u, k, v, j - 1);
            if sorted_put(u, k, v)[j - 1].0 != k {
                let a = choose|a: int| 0 <= a < u.len() && u[a].0 == sorted_put(u, k, v)[j - 1].0;
                assert(s[a + 1].0 == t[j].0);
            }
        }
    }
}

/// Binding `k` keeps the list sorted, makes `k` map to `v` and leaves every
/// other key as it was.
pub proof fn lemma_sorted_put_lookup<T>(s: Seq<(Seq<char>, T)>, k: Seq<char>, v: T, other: Seq<char>)
    requires
        sorted_keys(s),
    ensures
        sorted_keys(sorted_put(s, k, v)),
        lookup(sorted_put(s, k, v), k) == Some(v),
        other != k ==> lookup(sorted_put(s, k, v), other) == lookup(s, other),
    decreases s.len(),
{
    let t = sorted_put(s, k, v);
    if s.len() == 0 {
        assert(t.skip(1) =~= Seq::<(Seq<char>, T)>::empty());
        assert(t[0].0 == k);
        assert(lookup(t.skip(1), other) is None);
    } else if s[0].0 == k {
        assert(sorted_keys(t)) by {
            assert forall|i: int, j: int| 0 <= i < j < t.len() implies lex_less(
                key_bytes(#[trigger] t[i].0),
                key_bytes(#[trigger] t[j].0),
            ) by {
                assert(t[i].0 == s[i].0 && t[j].0 == s[j].0);
            }
        }
        assert(t.skip(1) =~= s.skip(1));
        assert(t[0].0 == k);
    } else if lex_less(key_bytes(k), key_bytes(s[0].0)) {
        assert(sorted_keys(t)) by {
            assert forall|i: int, j: int| 0 <= i < j < t.len() implies lex_less(
                key_bytes(#[trigger] t[i].0),
                key_bytes(#[trigger] t[j].0),
            ) by {
                if i == 0 {
                    if j > 1 {
                        lemma_lex_transitive(key_bytes(k), key_bytes(s[0].0), key_bytes(s[j - 1].0));
                    }
                } else {
                    assert(t[i] == s[i - 1] && t[j] == s[j - 1]);
                }
            }
        }
        assert(t.skip(1) =~= s);
        assert(t[0].0 == k);
    } else {
        lemma_sorted_keys_skip(s);
        let u = s.skip(1);
        lemma_sorted_put_lookup(u, k, v, other);
        let r = sorted_put(u, k, v);
        assert(t.skip(1) =~= r);
        assert(t[0] == s[0]);
        assert(s[0].0 != k);
        assert(sorted_keys(t)) by {
            assert forall|i: int, j: int| 0 <= i < j < t.len() implies lex_less(
                key_bytes(#[trigger] t[i].0),
                key_bytes(#[trigger] t[j].0),
            ) by {
                if i == 0 {
                    lemma_sorted_put_members(u, k, v, j - 1);
                    assert(t[j] == r[j - 1]);
                    let m = r[j - 1].0;
                    if m != k {
                        let a = choose|a: int| 0 <= a < u.len() && u[a].0 == m;
                        assert(u[a] == s[a + 1]);
                    } else {
                        lemma_lex_total(key_bytes(k), key_bytes(s[0].0));
                        if key_bytes(k) == key_bytes(s[0].0) {
                            lemma_key_bytes_injective(k, s[0].0);
                        }
                    }
                } else {
                    assert(t[i] == r[i - 1] && t[j] == r[j - 1]);
                }
            }
        }
    }
}

/// Removing `k` leaves the list sorted, drops `k`, and keeps every other key.
pub proof fn lemma_assoc_remove_lookup<T>(s: Seq<(Seq<char>, T)>, k: Seq<char>, other: Seq<char>)
    requires
        sorted_keys(s),
    ensures
        sorted_keys(assoc_remove(s, k)),
        lookup(assoc_remove(s, k), k) is None,
        other != k ==> lookup(assoc_remove(s, k), other) == lookup(s, other),
    decreases s.len(),
{
    let t = assoc_remove(s, k);
    if s.len() == 0 {
    } else if s[0].0 == k {
        lemma_sorted_keys_skip(s);
        assert forall|i: int| 0 <= i < t.len() implies #[trigger] t[i].0 != k by {
            assert(t[i] == s[i + 1]);
            assert(lex_less(key_bytes(s[0].0), key_bytes(s[i + 1].0)));
            lemma_lex_irreflexive(key_bytes(k));
        }
        lemma_lookup_absent(t, k);
    } else {
        lemma_sorted_keys_skip(s);
        let u = s.skip(1);
        lemma_assoc_remove_lookup(u, k, other);
        let r = assoc_remove(u, k);
        assert(t == seq![s[0]] + r);
        assert(t.skip(1) =~= r);
        assert(t[0] == s[0]);
        assert(sorted_keys(t)) by {
            assert forall|i: int, j: int| 0 <= i < j < t.len() implies lex_less(
                key_bytes(#[trigger] t[i].0),
                key_bytes(#[trigger] t[j].0),
            ) by {
                if i == 0 {
                    lemma_assoc_remove_members(u, k, j - 1);
                    let a = choose|a: int| 0 <= a < u.len() && u[a].0 == r[j - 1].0;
                    assert(u[a] == s[a + 1]);
                    assert(t[j] == r[j - 1]);
                } else {
                    assert(t[i] == r[i - 1] && t[j] == r[j - 1]);
                }
            }
        }
    }
}

/// Every key left by `assoc_remove` was a key of the list.
proof fn lemma_assoc_remove_members<T>(s: Seq<(Seq<char>, T)>, k: Seq<char>, j: int)
    requires
        0 <= j < assoc_remove(s, k).len(),
    ensures
        exists|a: int| 0 <= a < s.len() && s[a].0 == assoc_remove(s, k)[j].0,
    decreases s.len(),
{
    let t = assoc_remove(s, k);
    if s.len() == 0 {
    } else if s[0].0 == k {
        assert(s[j + 1].0 == t[j].0);
    } else if j == 0 {
        assert(s[0].0 == t[0].0);
    } else {
        let u = s.skip(1);
        lemma_assoc_remove_members(u, k, j - 1);
        let a = choose|a: int| 0 <= a < u.len() && u[a].0 == assoc_remove(u, k)[j - 1].0;
        assert(s[a + 1].0 == t[j].0);
    }
}

} // verus!
