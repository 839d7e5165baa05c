//! Character-sequence utilities: lexicographic order on strings, decimal
//! rendering of numbers, and sorted, deduplicated vectors of strings.

use vstd::prelude::*;
use itertools::Itertools;

verus! {

/// Strict lexicographic order on character sequences, comparing by Unicode
/// code point. This is the order in which error reports and rendered
/// members are sorted.
pub open spec fn lex_lt(a: Seq<char>, b: Seq<char>) -> bool
    decreases a.len(),
{
    if b.len() == 0 {
        false
    } else if a.len() == 0 {
        true
    } else if (a[0] as int) < (b[0] as int) {
        true
    } else if a[0] == b[0] {
        lex_lt(a.drop_first(), b.drop_first())
    } else {
        false
    }
}

pub proof fn lemma_lex_lt_irrefl(a: Seq<char>)
    ensures
        !lex_lt(a, a),
    decreases a.len(),
{
    if a.len() > 0 {
        lemma_lex_lt_irrefl(a.drop_first());
    }
}

/// Any two character sequences are ordered or equal.
pub proof fn lemma_lex_lt_total(a: Seq<char>, b: Seq<char>)
    ensures
        lex_lt(a, b) || lex_lt(b, a) || a == b,
    decreases a.len(),
{
    if a.len() == 0 && b.len() == 0 {
        assert(a =~= b);
    } else if a.len() == 0 {
        assert(lex_lt(a, b));
    } else if b.len() == 0 {
        assert(lex_lt(b, a));
    } else {
        if (a[0] as int) < (b[0] as int) {
            assert(lex_lt(a, b));
        } else if (b[0] as int) < (a[0] as int) {
            assert(lex_lt(b, a));
        } else {
            assert(a[0] == b[0]);
            lemma_lex_lt_total(a.drop_first(), b.drop_first());
            if a.drop_first() == b.drop_first() {
                assert(a.drop_first().len() == b.drop_first().len());
                assert(a.len() == b.len());
                assert forall|i: int| 0 <= i < a.len() implies a[i] == b[i] by {
                    if i > 0 {
                        assert(a[i] == a.drop_first()[i - 1]);
                        assert(b[i] == b.drop_first()[i - 1]);
                    }
                }
                assert(a =~= b);
            }
        }
    }
}

pub proof fn lemma_lex_lt_trans(a: Seq<char>, b: Seq<char>, c: Seq<char>)
    ensures
        lex_lt(a, b) && lex_lt(b, c) ==> lex_lt(a, c),
    decreases a.len(),
{
    if a.len() > 0 && b.len() > 0 && c.len() > 0 {
        lemma_lex_lt_trans(a.drop_first(), b.drop_first(), c.drop_first());
    }
}

/// Compares two strings in the lexicographic order `lex_lt`.
pub fn str_lt(a: &str, b: &str) -> (r: bool)
    ensures
        r == lex_lt(a@, b@),
{
    let alen: usize = a.unicode_len();
    let blen: usize = b.unicode_len();
    let mut i: usize = 0;
    proof {
        assert(a@.skip(0) =~= a@);
        assert(b@.skip(0) =~= b@);
    }
    loop
        invariant
            i <= alen,
            i <= blen,
            alen == a@.len(),
            blen == b@.len(),
            lex_lt(a@, b@) == lex_lt(a@.skip(i as int), b@.skip(i as int)),
        decreases alen - i,
    {
        if i == alen || i == blen {
            return i == alen && i < blen;
        }
        let ca = a.get_char(i);
        let cb = b.get_char(i);
        proof {
            assert(a@.skip(i as int)[0] == a@[i as int]);
            assert(b@.skip(i as int)[0] == b@[i as int]);
            assert(a@.skip(i as int).drop_first() =~= a@.skip(i as int + 1));
            assert(b@.skip(i as int).drop_first() =~= b@.skip(i as int + 1));
        }
        if (ca as u32) < (cb as u32) {
            return true;
        }
        if ca != cb {
            return false;
        }
        i = i + 1;
    }
}

/// Tests two strings for equality of their character sequences.
pub fn str_eq(a: &str, b: &str) -> (r: bool)
    ensures
        r == (a@ == b@),
{
    let alen: usize = a.unicode_len();
    let blen: usize = b.unicode_len();
    if alen != blen {
        return false;
    }
    let mut i: usize = 0;
    while i < alen
        invariant
            i <= alen,
            alen == a@.len(),
            alen == b@.len(),
            forall|j: int| 0 <= j < i ==> a@[j] == b@[j],
        decreases alen - i,
    {
        if a.get_char(i) != b.get_char(i) {
            return false;
        }
        i = i + 1;
    }
    proof {
        assert(a@ =~= b@);
    }
    true
}

/// The decimal digit character for a value below ten.
pub open spec fn digit_char(d: nat) -> char {
    if d == 0 { '0' }
    else if d == 1 { '1' }
    else if d == 2 { '2' }
    else if d == 3 { '3' }
    else if d == 4 { '4' }
    else if d == 5 { '5' }
    else if d == 6 { '6' }
    else if d == 7 { '7' }
    else if d == 8 { '8' }
    else { '9' }
}

/// The decimal rendering of a natural number, without leading zeros.
pub open spec fn dec_str(n: nat) -> Seq<char>
    decreases n,
{
    if n < 10 {
        seq![digit_char(n)]
    } else {
        dec_str(n / 10).push(digit_char(n % 10))
    }
}

fn digit_str(d: u64) -> (r: &'static str)
    requires
        d < 10,
    ensures
        r@ == seq![digit_char(d as nat)],
{
    proof {
        reveal_strlit("0");
        reveal_strlit("1");
        reveal_strlit("2");
        reveal_strlit("3");
        reveal_strlit("4");
        reveal_strlit("5");
        reveal_strlit("6");
        reveal_strlit("7");
        reveal_strlit("8");
        reveal_strlit("9");
    }
    let r: &'static str = if d == 0 { "0" }
    else if d == 1 { "1" }
    else if d == 2 { "2" }
    else if d == 3 { "3" }
    else if d == 4 { "4" }
    else if d == 5 { "5" }
    else if d == 6 { "6" }
    else if d == 7 { "7" }
    else if d == 8 { "8" }
    else { "9" };
    proof {
        assert(r@ =~= seq![digit_char(d as nat)]);
    }
    r
}

/// Renders a number in decimal.
pub fn u64_dec(n: u64) -> (r: String)
    ensures
        r@ == dec_str(n as nat),
    decreases n,
{
    if n < 10 {
        String::from_str(digit_str(n))
    } else {
        let mut s = u64_dec(n / 10);
        s.append(digit_str(n % 10));
        proof {
            assert(s@ =~= dec_str(n as nat));
        }
        s
    }
}

/// The set of character sequences held by a vector of strings.
pub open spec fn strs(v: Seq<String>) -> Set<Seq<char>> {
    Set::new(|s: Seq<char>| exists|i: int| 0 <= i < v.len() && v[i]@ == s)
}

/// Strictly sorted in `lex_lt`: sortedness plus absence of duplicates.
pub open spec fn sorted_strs(v: Seq<String>) -> bool {
    forall|i: int, j: int| 0 <= i < j < v.len() ==> lex_lt(v[i]@, v[j]@)
}

/// Inserts a string into a sorted, deduplicated vector, keeping it sorted
/// and deduplicated.
pub fn insert_str(v: &mut Vec<String>, x: String)
    requires
        sorted_strs(old(v)@),
    ensures
        sorted_strs(final(v)@),
        strs(final(v)@) == strs(old(v)@).insert(x@),
{
    let mut i: usize = 0;
    loop
        invariant
            i <= v@.len(),
            v@ == old(v)@,
            sorted_strs(v@),
            forall|j: int| 0 <= j < i ==> lex_lt(v@[j]@, x@),
        ensures
            i <= v@.len(),
            v@ == old(v)@,
            forall|j: int| 0 <= j < i ==> lex_lt(v@[j]@, x@),
            i < v@.len() ==> !lex_lt(v@[i as int]@, x@),
        decreases v@.len() - i,
    {
        if i == v.len() {
            break;
        }
        if !str_lt(&v[i], &x) {
            break;
        }
        i = i + 1;
    }
    if i < v.len() {
        if str_eq(&v[i], &x) {
            proof {
                assert(strs(v@).contains(x@));
                assert(strs(v@) =~= strs(old(v)@).insert(x@));
            }
            return;
        }
    }
    proof {
        if i < v@.len() {
            lemma_lex_lt_total(v@[i as int]@, x@);
            assert(lex_lt(x@, v@[i as int]@));
        }
    }
    v.insert(i, x);
    proof {
        let ghost s0 = old(v)@;
        let ghost s1 = v@;
        assert forall|p: int, q: int| 0 <= p < q < s1.len() implies lex_lt(
            s1[p]@,
            s1[q]@,
        ) by {
            if p < i && q > i {
                assert(s1[p] == s0[p]);
                assert(s1[q] == s0[q - 1]);
                lemma_lex_lt_trans(s1[p]@, x@, s1[q]@);
            } else if p == i && q > i {
                assert(s1[q] == s0[q - 1]);
                if q - 1 > i {
                    lemma_lex_lt_trans(x@, s0[i as int]@, s1[q]@);
                }
            }
        }
        assert forall|s: Seq<char>| strs(s1).contains(s) implies strs(s0).insert(
            x@,
        ).contains(s) by {
            let k = choose|k: int| 0 <= k < s1.len() && s1[k]@ == s;
            if k < i {
                assert(s0[k]@ == s);
            } else if k > i {
                assert(s0[k - 1]@ == s);
            }
        }
        assert forall|s: Seq<char>| strs(s0).insert(x@).contains(s) implies strs(
            s1,
        ).contains(s) by {
            if s == x@ {
                assert(s1[i as int]@ == s);
            } else {
                let k = choose|k: int| 0 <= k < s0.len() && s0[k]@ == s;
                if k < i {
                    assert(s1[k]@ == s);
                } else {
                    assert(s1[k + 1]@ == s);
                }
            }
        }
        assert(strs(v@) =~= strs(old(v)@).insert(x@));
    }
}

/// The items of a vector of strings joined with newlines, no trailing
/// newline.
pub open spec fn join_nl(v: Seq<String>) -> Seq<char>
    decreases v.len(),
{
    if v.len() == 0 {
        Seq::empty()
    } else if v.len() == 1 {
        v[0]@
    } else {
        join_nl(v.drop_last()) + seq!['\n'] + v.last()@
    }
}

/// Relies on `itertools::Itertools::join`: writes each item's `Display`
/// text (for a string, the string itself) separated by the separator.
#[verifier::external_body]
pub fn join_lines(v: &Vec<String>) -> (r: String)
    ensures
        r@ == join_nl(v@),
{
    v.iter().join("\n")
}

} // verus!
