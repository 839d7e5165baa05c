//! Name-keyed collections held as vectors sorted strictly by key: the
//! ordered mappings that interfaces use for their typedefs and methods and
//! that documents use for their interfaces.

use vstd::prelude::*;
use crate::text::{lex_lt, lemma_lex_lt_irrefl, lemma_lex_lt_total, lemma_lex_lt_trans, str_lt};

verus! {

/// A value addressed by a name.
pub trait Keyed {
    /// The name under which the value is filed.
    spec fn skey(&self) -> Seq<char>;

    /// The same name, as a string.
    fn key_ref(&self) -> (r: &str)
        ensures
            r@ == self.skey(),
    ;
}

/// The mapping from names to values that a vector of keyed values holds.
/// A later entry with the same name shadows an earlier one, but the
/// vectors kept here are strictly sorted, so every name occurs once.
pub open spec fn key_map<T: Keyed>(v: Seq<T>) -> Map<Seq<char>, T>
    decreases v.len(),
{
    if v.len() == 0 {
        Map::empty()
    } else {
        key_map(v.drop_last()).insert(v.last().skey(), v.last())
    }
}

/// Strictly sorted by key in `lex_lt`: sorted, and no name occurs twice.
pub open spec fn sorted_keyed<T: Keyed>(v: Seq<T>) -> bool {
    forall|i: int, j: int| 0 <= i < j < v.len() ==> lex_lt(v[i].skey(), v[j].skey())
}

/// A name is in the mapping exactly when some entry carries it.
pub proof fn lemma_key_map_dom<T: Keyed>(v: Seq<T>)
    ensures
        forall|k: Seq<char>|
            #[trigger] key_map(v).contains_key(k) <==> exists|i: int|
                0 <= i < v.len() && v[i].skey() == k,
    decreases v.len(),
{
    if v.len() > 0 {
        lemma_key_map_dom(v.drop_last());
        assert forall|k: Seq<char>| key_map(v).contains_key(k) implies exists|i: int|
            0 <= i < v.len() && v[i].skey() == k by {
            if k == v.last().skey() {
                assert(v[v.len() - 1].skey() == k);
            } else {
                assert(key_map(v.drop_last()).contains_key(k));
                let i = choose|i: int| 0 <= i < v.drop_last().len() && v.drop_last()[i].skey() == k;
                assert(v.drop_last()[i] == v[i]);
                assert(v[i].skey() == k);
            }
        }
        assert forall|k: Seq<char>|
            (exists|i: int| 0 <= i < v.len() && v[i].skey() == k) implies key_map(
            v,
        ).contains_key(k) by {
            let i = choose|i: int| 0 <= i < v.len() && v[i].skey() == k;
            if i < v.len() - 1 {
                assert(v.drop_last()[i] == v[i]);
                assert(exists|j: int|
                    0 <= j < v.drop_last().len() && v.drop_last()[j].skey() == k);
                assert(key_map(v.drop_last()).contains_key(k));
            } else {
                assert(v.last().skey() == k);
            }
        }
    }
}

/// In a strictly sorted vector, each entry is the mapping's value at its
/// own name.
pub proof fn lemma_key_map_value<T: Keyed>(v: Seq<T>, j: int)
    requires
        sorted_keyed(v),
        0 <= j < v.len(),
    ensures
        key_map(v).contains_key(v[j].skey()),
        key_map(v)[v[j].skey()] == v[j],
    decreases v.len(),
{
    if j == v.len() - 1 {
        assert(key_map(v) == key_map(v.drop_last()).insert(v.last().skey(), v.last()));
    } else {
        assert(v.drop_last()[j] == v[j]);
        lemma_key_map_value(v.drop_last(), j);
        lemma_lex_lt_irrefl(v[j].skey());
        assert(lex_lt(v[j].skey(), v.last().skey()));
        assert(v[j].skey() != v.last().skey());
    }
}

/// Inserting a value with a fresh name anywhere in the vector inserts it
/// into the mapping.
pub proof fn lemma_key_map_insert<T: Keyed>(v: Seq<T>, i: int, x: T)
    requires
        0 <= i <= v.len(),
        forall|j: int| 0 <= j < v.len() ==> v[j].skey() != x.skey(),
    ensures
        key_map(v.insert(i, x)) == key_map(v).insert(x.skey(), x),
    decreases v.len(),
{
    let w = v.insert(i, x);
    if i == v.len() {
        assert(w.drop_last() =~= v);
        assert(w.last() == x);
        assert(key_map(w) == key_map(v).insert(x.skey(), x));
    } else {
        assert(w.last() == v.last());
        assert(w.drop_last() =~= v.drop_last().insert(i, x));
        lemma_key_map_insert(v.drop_last(), i, x);
        let a = key_map(v.drop_last());
        let lk = v.last().skey();
        let lv = v.last();
        assert(v[v.len() - 1].skey() != x.skey());
        assert(a.insert(x.skey(), x).insert(lk, lv) =~= a.insert(lk, lv).insert(x.skey(), x));
        assert(key_map(w) == key_map(v).insert(x.skey(), x));
    }
}

/// Looks a name up in a vector of keyed values.
pub fn find_keyed<T: Keyed>(v: &Vec<T>, k: &str) -> (r: Option<usize>)
    ensures
        match r {
            Some(i) => i < v@.len() && v@[i as int].skey() == k@,
            None => forall|i: int| 0 <= i < v@.len() ==> v@[i].skey() != k@,
        },
{
    let mut i: usize = 0;
    while i < v.len()
        invariant
            i <= v@.len(),
            forall|j: int| 0 <= j < i ==> v@[j].skey() != k@,
        decreases v@.len() - i,
    {
        if crate::text::str_eq(v[i].key_ref(), k) {
            return Some(i);
        }
        i = i + 1;
    }
    None
}

/// Inserts a value whose name is not yet present, keeping the vector
/// strictly sorted.
pub fn insert_keyed<T: Keyed>(v: &mut Vec<T>, x: T)
    requires
        sorted_keyed(old(v)@),
        forall|j: int| 0 <= j < old(v)@.len() ==> old(v)@[j].skey() != x.skey(),
    ensures
        sorted_keyed(final(v)@),
        key_map(final(v)@) == key_map(old(v)@).insert(x.skey(), x),
        final(v)@.len() == old(v)@.len() + 1,
        forall|p: int| 0 <= p < final(v)@.len() ==> (#[trigger] final(v)@[p] == x || old(
            v,
        )@.contains(final(v)@[p])),
{
    let mut i: usize = 0;
    loop
        invariant
            i <= v@.len(),
            v@ == old(v)@,
            sorted_keyed(v@),
            forall|j: int| 0 <= j < i ==> lex_lt(v@[j].skey(), x.skey()),
        ensures
            i <= v@.len(),
            v@ == old(v)@,
            forall|j: int| 0 <= j < i ==> lex_lt(v@[j].skey(), x.skey()),
            i < v@.len() ==> !lex_lt(v@[i as int].skey(), x.skey()),
        decreases v@.len() - i,
    {
        if i == v.len() {
            break;
        }
        if !str_lt(v[i].key_ref(), x.key_ref()) {
            break;
        }
        i = i + 1;
    }
    proof {
        if i < v@.len() {
            lemma_lex_lt_total(v@[i as int].skey(), x.skey());
            assert(lex_lt(x.skey(), v@[i as int].skey()));
        }
        lemma_key_map_insert(v@, i as int, x);
    }
    let ghost s0 = v@;
    v.insert(i, x);
    proof {
        let s1 = v@;
        assert forall|p: int, q: int| 0 <= p < q < s1.len() implies lex_lt(
            s1[p].skey(),
            s1[q].skey(),
        ) by {
            if p < i && q > i {
                assert(s1[p] == s0[p]);
                assert(s1[q] == s0[q - 1]);
                lemma_lex_lt_trans(s1[p].skey(), x.skey(), s1[q].skey());
            } else if p == i && q > i {
                assert(s1[q] == s0[q - 1]);
                if q - 1 > i {
                    lemma_lex_lt_trans(x.skey(), s0[i as int].skey(), s1[q].skey());
                }
            }
        }
        assert forall|p: int| 0 <= p < s1.len() implies (#[trigger] s1[p] == x || s0.contains(
            s1[p],
        )) by {
            if p < i {
                assert(s1[p] == s0[p]);
            } else if p > i {
                assert(s1[p] == s0[p - 1]);
            }
        }
    }
}

} // verus!
