//! The collection-level laws of the repository, proved over the mathematical
//! model that the operations' contracts are stated in. Each law is phrased
//! over `Seq<CarView>`, so it applies to every collection value the exec
//! operations can produce.

use vstd::prelude::*;

use crate::db::{has_key, key_idx, find_spec, lemma_key_idx, remove_key, unique_keys, CarView};

verus! {

/// A successful insert preserves the collection invariant: appending a record
/// whose key is not yet taken leaves all registration numbers pairwise
/// distinct. Since the empty collection trivially satisfies `unique_keys`,
/// any sequence of successful `create` calls ends in a collection without a
/// shared registration number.
pub proof fn lemma_create_preserves_uniqueness(s: Seq<CarView>, c: CarView)
    requires
        unique_keys(s),
        !has_key(s, c.reg_num),
    ensures
        unique_keys(s.push(c)),
{
    let s2 = s.push(c);
    assert forall|i: int, j: int| #![trigger s2[i], s2[j]]
        0 <= i < j < s2.len() implies s2[i].reg_num != s2[j].reg_num by {
        if j == s.len() as int {
            assert(s2[i] == s[i]);
            assert(s2[j] == c);
            if s[i].reg_num == c.reg_num {
                assert(has_key(s, c.reg_num));
            }
        } else {
            assert(s2[i] == s[i]);
            assert(s2[j] == s[j]);
        }
    }
}

/// Create-then-find: after a successful insert of `c`, a lookup by `c`'s
/// registration number returns exactly `c`.
pub proof fn lemma_create_then_find(s: Seq<CarView>, c: CarView)
    requires
        !has_key(s, c.reg_num),
    ensures
        find_spec(s.push(c), c.reg_num) == Some(c),
{
    let s2 = s.push(c);
    assert(s2[s.len() as int] == c);
    assert(has_key(s2, c.reg_num));
    lemma_key_idx(s2, c.reg_num);
    let i = key_idx(s2, c.reg_num);
    if i < s.len() {
        assert(s2[i] == s[i]);
        assert(has_key(s, c.reg_num));
    }
    assert(i == s.len() as int);
}

/// Create collision: once a record with some key is in the collection, the
/// key is taken, so a second `create` under the same key meets `has_key` and
/// — by `create`'s contract — fails with `DuplicateKeyError`, producing no
/// new collection to save.
pub proof fn lemma_create_collision(s: Seq<CarView>, c: CarView, key: Seq<char>)
    requires
        key == c.reg_num,
    ensures
        has_key(s.push(c), key),
{
    assert(s.push(c)[s.len() as int] == c);
}

/// A collection in which no record carries the key is left untouched by
/// `remove_key`.
pub proof fn lemma_remove_key_no_match(s: Seq<CarView>, key: Seq<char>)
    requires
        forall|j: int| 0 <= j < s.len() ==> s[j].reg_num != key,
    ensures
        remove_key(s, key) == s,
    decreases s.len(),
{
    if s.len() == 0 {
        assert(remove_key(s, key) =~= s);
    } else {
        let sp = s.drop_last();
        assert forall|j: int| 0 <= j < sp.len() implies sp[j].reg_num != key by {
            assert(sp[j] == s[j]);
        }
        lemma_remove_key_no_match(sp, key);
        assert(s.last().reg_num != key);
        assert(remove_key(s, key) == sp.push(s.last()));
        assert(sp.push(s.last()) =~= s);
    }
}

/// Delete removes exactly one record: on a collection satisfying the
/// invariant, removing a key that is present takes out the single record at
/// its position and nothing else, so the survivors keep their relative order
/// and the collection shrinks by one.
pub proof fn lemma_delete_removes_exactly_one(s: Seq<CarView>, key: Seq<char>)
    requires
        unique_keys(s),
        has_key(s, key),
    ensures
        remove_key(s, key) == s.remove(key_idx(s, key)),
        remove_key(s, key).len() == s.len() - 1,
    decreases s.len(),
{
    lemma_key_idx(s, key);
    let i = key_idx(s, key);
    let n = s.len() as int;
    let sp = s.drop_last();
    if i == n - 1 {
        assert forall|j: int| 0 <= j < sp.len() implies sp[j].reg_num != key by {
            assert(sp[j] == s[j]);
            if s[j].reg_num == key {
                assert(s[j].reg_num != s[i].reg_num);
            }
        }
        lemma_remove_key_no_match(sp, key);
        assert(remove_key(s, key) == sp);
        assert(s.remove(i) =~= sp);
    } else {
        assert(s.last() == s[n - 1]);
        assert(s[i].reg_num != s[n - 1].reg_num);
        assert forall|a: int, b: int| #![trigger sp[a], sp[b]]
            0 <= a < b < sp.len() implies sp[a].reg_num != sp[b].reg_num by {
            assert(sp[a] == s[a]);
            assert(sp[b] == s[b]);
        }
        assert(unique_keys(sp));
        assert(sp[i] == s[i]);
        assert(has_key(sp, key));
        lemma_key_idx(sp, key);
        let ip = key_idx(sp, key);
        if ip < i {
            assert(sp[ip] == s[ip]);
        }
        assert(ip == i);
        lemma_delete_removes_exactly_one(sp, key);
        assert(remove_key(s, key) == remove_key(sp, key).push(s[n - 1]));
        assert(sp.remove(i).push(s[n - 1]) =~= s.remove(i));
    }
}

/// A merge-update preserves the collection invariant: replacing the record at
/// the key's position with a record carrying the same key keeps all
/// registration numbers pairwise distinct.
pub proof fn lemma_update_preserves_uniqueness(s: Seq<CarView>, key: Seq<char>, m: CarView)
    requires
        unique_keys(s),
        has_key(s, key),
        m.reg_num == key,
    ensures
        unique_keys(s.update(key_idx(s, key), m)),
{
    lemma_key_idx(s, key);
    let i = key_idx(s, key);
    let s2 = s.update(i, m);
    assert forall|a: int, b: int| #![trigger s2[a], s2[b]]
        0 <= a < b < s2.len() implies s2[a].reg_num != s2[b].reg_num by {
        if a == i {
            assert(s2[b] == s[b]);
            assert(s[i].reg_num != s[b].reg_num);
        } else if b == i {
            assert(s2[a] == s[a]);
            assert(s[a].reg_num != s[i].reg_num);
        } else {
            assert(s2[a] == s[a]);
            assert(s2[b] == s[b]);
        }
    }
}

/// Update-then-find: after a merge-update replaced the record at the key's
/// position, a lookup by that key returns the merged record — the most recent
/// accepted update is the one a reader sees.
pub proof fn lemma_update_then_find(s: Seq<CarView>, key: Seq<char>, m: CarView)
    requires
        has_key(s, key),
        m.reg_num == key,
    ensures
        find_spec(s.update(key_idx(s, key), m), key) == Some(m),
{
    lemma_key_idx(s, key);
    let i = key_idx(s, key);
    let s2 = s.update(i, m);
    assert(s2[i] == m);
    assert(has_key(s2, key));
    lemma_key_idx(s2, key);
    let i2 = key_idx(s2, key);
    if i2 < i {
        assert(s2[i2] == s[i2]);
    }
    assert(i2 == i);
}

/// Delete-then-find: after every record under the key is removed, a lookup by
/// that key finds nothing — a deleted record is gone for all later reads.
pub proof fn lemma_delete_then_find(s: Seq<CarView>, key: Seq<char>)
    ensures
        !has_key(remove_key(s, key), key),
        find_spec(remove_key(s, key), key) is None,
    decreases s.len(),
{
    if s.len() == 0 {
    } else {
        lemma_delete_then_find(s.drop_last(), key);
        let rest = remove_key(s.drop_last(), key);
        if s.last().reg_num != key {
            let r = remove_key(s, key);
            assert(r == rest.push(s.last()));
            if has_key(r, key) {
                let w = choose|i: int| 0 <= i < r.len() && r[i].reg_num == key;
                if w < rest.len() {
                    assert(rest[w] == r[w]);
                    assert(has_key(rest, key));
                }
            }
        }
    }
}

/// A delete preserves the collection invariant: the surviving records still
/// have pairwise distinct registration numbers.
pub proof fn lemma_delete_preserves_uniqueness(s: Seq<CarView>, key: Seq<char>)
    requires
        unique_keys(s),
        has_key(s, key),
    ensures
        unique_keys(remove_key(s, key)),
{
    lemma_delete_removes_exactly_one(s, key);
    lemma_key_idx(s, key);
    let i = key_idx(s, key);
    let s2 = s.remove(i);
    assert forall|a: int, b: int| #![trigger s2[a], s2[b]]
        0 <= a < b < s2.len() implies s2[a].reg_num != s2[b].reg_num by {
        let a0: int = if a < i { a } else { a + 1 };
        let b0: int = if b < i { b } else { b + 1 };
        assert(s2[a] == s[a0]);
        assert(s2[b] == s[b0]);
        assert(s[a0].reg_num != s[b0].reg_num);
    }
}

} // verus!
