//! What reading and writing at paths have to do with each other.

use crate::tree::key_index;
use crate::tree::lemma_key_index;
use crate::tree::lemma_key_index_is;
use crate::tree::Tree;
use vstd::prelude::*;

verus! {

/// Whether the path `p` is the beginning of the path `q`.
pub open spec fn begins(p: Seq<Seq<char>>, q: Seq<Seq<char>>) -> bool {
    p.len() <= q.len() && q.take(p.len() as int) == p
}

/// Whether neither path is the beginning of the other.
pub open spec fn apart(p: Seq<Seq<char>>, q: Seq<Seq<char>>) -> bool {
    !begins(p, q) && !begins(q, p)
}

/// Binding a key in a table binds it.
pub proof fn lemma_put_same(t: Tree, key: Seq<char>, value: Tree)
    requires
        t is Table,
    ensures
        t.put(key, value) is Table,
        t.put(key, value).field(key) == Some(value),
{
    let e = t->Table_0;
    let i = key_index(e, key);
    lemma_key_index(e, key);
    if i < e.len() {
        let e2 = e.update(i, (key, value));
        assert forall|j: int| 0 <= j < i implies (#[trigger] e2[j]).0 != key by {
            assert(e2[j] == e[j]);
        }
        lemma_key_index_is(e2, key, i);
    } else {
        let e2 = e.push((key, value));
        assert forall|j: int| 0 <= j < e.len() implies (#[trigger] e2[j]).0 != key by {
            assert(e2[j] == e[j]);
        }
        lemma_key_index_is(e2, key, e.len() as int);
    }
}

/// Binding a key leaves every other key as it was.
pub proof fn lemma_put_other(t: Tree, key: Seq<char>, value: Tree, other: Seq<char>)
    requires
        other != key,
    ensures
        t.put(key, value).field(other) == t.field(other),
{
    if t is Table {
        let e = t->Table_0;
        let i = key_index(e, key);
        let k = key_index(e, other);
        lemma_key_index(e, key);
        lemma_key_index(e, other);
        if i < e.len() {
            let e2 = e.update(i, (key, value));
            assert forall|j: int| 0 <= j < k implies (#[trigger] e2[j]).0 != other by {
                if j != i {
                    assert(e2[j] == e[j]);
                }
            }
            if k < e.len() {
                assert(k != i);
                assert(e2[k] == e[k]);
            }
            lemma_key_index_is(e2, other, k);
        } else {
            let e2 = e.push((key, value));
            if k < e.len() {
                assert forall|j: int| 0 <= j < k implies (#[trigger] e2[j]).0 != other by {
                    assert(e2[j] == e[j]);
                }
                assert(e2[k] == e[k]);
                lemma_key_index_is(e2, other, k);
            } else {
                assert forall|j: int| 0 <= j < e2.len() implies (#[trigger] e2[j]).0 != other by {
                    if j < e.len() {
                        assert(e2[j] == e[j]);
                    }
                }
                lemma_key_index_is(e2, other, e2.len() as int);
            }
        }
    }
}

/// What is not a table binds no key.
pub proof fn lemma_field_of_table(t: Tree, key: Seq<char>)
    ensures
        t.field(key) == t.as_table().field(key),
        t.as_table() is Table,
{
    if !(t is Table) {
        lemma_key_index(Seq::<(Seq<char>, Tree)>::empty(), key);
    }
}

/// After a write there is a table.
pub proof fn lemma_with_is_table(t: Tree, parts: Seq<Seq<char>>, value: Tree)
    requires
        parts.len() >= 1,
    ensures
        t.with(parts, value) is Table,
{
    if parts.len() == 1 {
        lemma_put_same(t.as_table(), parts[0], value);
    } else {
        let child = match t.field(parts[0]) {
            Some(c) => c,
            None => Tree::empty(),
        };
        lemma_put_same(t.as_table(), parts[0], child.with(parts.drop_first(), value));
    }
}

/// A write is read back at its path, whatever the tree held before.
pub proof fn lemma_with_same(t: Tree, parts: Seq<Seq<char>>, value: Tree)
    requires
        parts.len() >= 1,
    ensures
        t.with(parts, value).at(parts) == Some(value),
    decreases parts.len(),
{
    let base = t.as_table();
    if parts.len() == 1 {
        lemma_put_same(base, parts[0], value);
        assert(parts.drop_first().len() == 0);
        assert(value.at(parts.drop_first()) == Some(value));
    } else {
        let rest = parts.drop_first();
        let child = match t.field(parts[0]) {
            Some(c) => c,
            None => Tree::empty(),
        };
        lemma_with_same(child, rest, value);
        lemma_put_same(base, parts[0], child.with(rest, value));
    }
}

/// Following a path of at least one key down from what is no table leads
/// nowhere.
pub proof fn lemma_at_of_table(t: Tree, path: Seq<Seq<char>>)
    requires
        path.len() >= 1,
    ensures
        t.at(path) == t.as_table().at(path),
{
    lemma_field_of_table(t, path[0]);
}

/// A write leaves untouched what lies apart from it.
pub proof fn lemma_with_apart(t: Tree, parts: Seq<Seq<char>>, value: Tree, other: Seq<Seq<char>>)
    requires
        parts.len() >= 1,
        apart(parts, other),
    ensures
        t.with(parts, value).at(other) == t.at(other),
    decreases parts.len(),
{
    let base = t.as_table();
    if other.len() == 0 {
        assert(other =~= parts.take(0));
        assert(begins(other, parts));
    } else {
        lemma_at_of_table(t, other);
        lemma_field_of_table(t, parts[0]);
        lemma_field_of_table(t, other[0]);
        if parts[0] != other[0] {
            if parts.len() == 1 {
                lemma_put_other(base, parts[0], value, other[0]);
            } else {
                let child = match t.field(parts[0]) {
                    Some(c) => c,
                    None => Tree::empty(),
                };
                lemma_put_other(base, parts[0], child.with(parts.drop_first(), value), other[0]);
            }
        } else {
            if parts.len() == 1 {
                assert(other.take(1) =~= parts);
                assert(begins(parts, other));
            } else if other.len() == 1 {
                assert(parts.take(1) =~= other);
                assert(begins(other, parts));
            } else {
                let prest = parts.drop_first();
                let orest = other.drop_first();
                assert(apart(prest, orest)) by {
                    if begins(prest, orest) {
                        assert(other.take(parts.len() as int) =~= parts) by {
                            assert forall|i: int| 0 <= i < parts.len() implies other.take(
                                parts.len() as int,
                            )[i] == parts[i] by {
                                if i > 0 {
                                    assert(orest.take(prest.len() as int)[i - 1] == prest[i - 1]);
                                }
                            }
                        }
                    }
                    if begins(orest, prest) {
                        assert(parts.take(other.len() as int) =~= other) by {
                            assert forall|i: int| 0 <= i < other.len() implies parts.take(
                                other.len() as int,
                            )[i] == other[i] by {
                                if i > 0 {
                                    assert(prest.take(orest.len() as int)[i - 1] == orest[i - 1]);
                                }
                            }
                        }
                    }
                }
                let child = match t.field(parts[0]) {
                    Some(c) => c,
                    None => Tree::empty(),
                };
                lemma_with_apart(child, prest, value, orest);
                lemma_put_same(base, parts[0], child.with(prest, value));
                if t.field(parts[0]) is None {
                    lemma_key_index(Seq::<(Seq<char>, Tree)>::empty(), orest[0]);
                    assert(Tree::empty().at(orest) is None);
                }
            }
        }
    }
}

/// The rest of a path that begins with another begins the rest of that
/// other.
proof fn lemma_begins_rest(p: Seq<Seq<char>>, q: Seq<Seq<char>>)
    requires
        p.len() >= 1,
        begins(p, q),
    ensures
        q.len() >= 1,
        q[0] == p[0],
        begins(p.drop_first(), q.drop_first()),
{
    assert(q.take(p.len() as int)[0] == p[0]);
    assert(q.drop_first().take(p.len() - 1) =~= p.drop_first()) by {
        assert forall|i: int| 0 <= i < p.len() - 1 implies q.drop_first().take(p.len() - 1)[i]
            == p.drop_first()[i] by {
            assert(q.take(p.len() as int)[i + 1] == p[i + 1]);
        }
    }
}

/// A write below a path leaves a table at the path.
pub proof fn lemma_with_below(t: Tree, parts: Seq<Seq<char>>, value: Tree, path: Seq<Seq<char>>)
    requires
        begins(path, parts),
        path.len() < parts.len(),
    ensures
        t.with(parts, value).at(path) is Some,
        t.with(parts, value).at(path)->0 is Table,
    decreases path.len(),
{
    if path.len() == 0 {
        lemma_with_is_table(t, parts, value);
    } else {
        lemma_begins_rest(path, parts);
        let child = match t.field(parts[0]) {
            Some(c) => c,
            None => Tree::empty(),
        };
        let prest = parts.drop_first();
        lemma_put_same(t.as_table(), parts[0], child.with(prest, value));
        lemma_with_below(child, prest, value, path.drop_first());
    }
}

/// A write of what is no table above a path leaves nothing at the path.
pub proof fn lemma_with_above(t: Tree, parts: Seq<Seq<char>>, value: Tree, path: Seq<Seq<char>>)
    requires
        parts.len() >= 1,
        begins(parts, path),
        parts.len() < path.len(),
        !(value is Table),
    ensures
        t.with(parts, value).at(path) is None,
    decreases parts.len(),
{
    lemma_begins_rest(parts, path);
    let rest = path.drop_first();
    if parts.len() == 1 {
        lemma_put_same(t.as_table(), parts[0], value);
        lemma_key_index(Seq::<(Seq<char>, Tree)>::empty(), rest[0]);
        assert(value.at(rest) is None);
    } else {
        let child = match t.field(parts[0]) {
            Some(c) => c,
            None => Tree::empty(),
        };
        let prest = parts.drop_first();
        lemma_put_same(t.as_table(), parts[0], child.with(prest, value));
        lemma_with_above(child, prest, value, rest);
    }
}

} // verus!
