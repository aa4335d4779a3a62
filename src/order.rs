//! Lexicographic order on names and strictly sorted name lists.
use vstd::prelude::*;
use vstd::string::StrSliceExecFns;

verus! {

/// `a` comes strictly before `b` in lexicographic order of code points.
pub open spec fn seq_lt(a: Seq<char>, b: Seq<char>) -> bool
    decreases a.len(),
{
    if b.len() == 0 {
        false
    } else if a.len() == 0 {
        true
    } else if a[0] != b[0] {
        (a[0] as int) < (b[0] as int)
    } else {
        seq_lt(a.subrange(1, a.len() as int), b.subrange(1, b.len() as int))
    }
}

/// Every name strictly precedes all later ones: sorted and free of duplicates.
pub open spec fn strictly_sorted(s: Seq<Seq<char>>) -> bool {
    forall|i: int, j: int| 0 <= i < j < s.len() ==> seq_lt(#[trigger] s[i], #[trigger] s[j])
}

/// The names held by a list of strings.
pub open spec fn names_of(v: Seq<String>) -> Seq<Seq<char>> {
    v.map_values(|s: String| s@)
}

pub proof fn lemma_lt_irreflexive(a: Seq<char>)
    ensures
        !seq_lt(a, a),
    decreases a.len(),
{
    if a.len() > 0 {
        lemma_lt_irreflexive(a.subrange(1, a.len() as int));
    }
}

pub proof fn lemma_lt_transitive(a: Seq<char>, b: Seq<char>, c: Seq<char>)
    requires
        seq_lt(a, b),
        seq_lt(b, c),
    ensures
        seq_lt(a, c),
    decreases a.len(),
{
    if a.len() > 0 && b.len() > 0 && c.len() > 0 && a[0] == b[0] && b[0] == c[0] {
        lemma_lt_transitive(
            a.subrange(1, a.len() as int),
            b.subrange(1, b.len() as int),
            c.subrange(1, c.len() as int),
        );
    }
}

pub proof fn lemma_lt_total(a: Seq<char>, b: Seq<char>)
    requires
        a != b,
    ensures
        seq_lt(a, b) || seq_lt(b, a),
    decreases a.len(),
{
    if a.len() > 0 && b.len() > 0 && a[0] == b[0] {
        let ta = a.subrange(1, a.len() as int);
        let tb = b.subrange(1, b.len() as int);
        if ta == tb {
            assert(a =~= seq![a[0]] + ta);
            assert(b =~= seq![b[0]] + tb);
        }
        lemma_lt_total(ta, tb);
    } else if a.len() > 0 && b.len() > 0 {
        assert((a[0] as int) != (b[0] as int));
    } else if a.len() == 0 && b.len() == 0 {
        assert(a =~= b);
    }
}

/// Whether `a` comes strictly before `b`, comparing code points in turn.
pub fn str_less(a: &str, b: &str) -> (r: bool)
    ensures
        r == seq_lt(a@, b@),
{
    let la = a.unicode_len();
    let lb = b.unicode_len();
    let mut i: usize = 0;
    proof {
        assert(a@.subrange(0, la as int) =~= a@);
        assert(b@.subrange(0, lb as int) =~= b@);
    }
    while i < la && i < lb
        invariant
            la == a@.len(),
            lb == b@.len(),
            i <= la,
            i <= lb,
            seq_lt(a@, b@) == seq_lt(a@.subrange(i as int, la as int), b@.subrange(i as int, lb as int)),
        decreases la - i,
    {
        let ca = a.get_char(i);
        let cb = b.get_char(i);
        let ghost ta = a@.subrange(i as int, la as int);
        let ghost tb = b@.subrange(i as int, lb as int);
        if ca != cb {
            proof {
                assert(ta[0] == ca && tb[0] == cb);
            }
            return (ca as u32) < (cb as u32);
        }
        proof {
            assert(ta[0] == ca && tb[0] == cb);
            assert(ta.subrange(1, ta.len() as int) =~= a@.subrange(i + 1, la as int));
            assert(tb.subrange(1, tb.len() as int) =~= b@.subrange(i + 1, lb as int));
        }
        i = i + 1;
    }
    i < lb
}

/// A fresh list holding the same names in the same order.
pub fn copy_names(v: &Vec<String>) -> (r: Vec<String>)
    ensures
        names_of(r@) == names_of(v@),
{
    let mut r: Vec<String> = Vec::new();
    let mut i: usize = 0;
    while i < v.len()
        invariant
            i <= v.len(),
            r@.len() == i,
            forall|k: int| 0 <= k < i ==> (#[trigger] r@[k])@ == v@[k]@,
        decreases v.len() - i,
    {
        let c = v[i].clone();
        let ghost before = r@;
        r.push(c);
        proof {
            assert(c@ == v@[i as int]@);
            assert(r@ == before.push(c));
        }
        i = i + 1;
    }
    proof {
        assert(names_of(r@) =~= names_of(v@));
    }
    r
}

/// Adds `name` to a strictly sorted list, keeping it strictly sorted; a name
/// that is already present leaves the list unchanged.
pub fn insert_sorted(names: &mut Vec<String>, name: String)
    requires
        strictly_sorted(names_of(old(names)@)),
    ensures
        strictly_sorted(names_of(final(names)@)),
        names_of(final(names)@).to_set() == names_of(old(names)@).to_set().insert(name@),
{
    let ghost before = names_of(names@);
    let mut p: usize = 0;
    while p < names.len() && str_less(names[p].as_str(), name.as_str())
        invariant
            0 <= p <= names.len(),
            names_of(names@) == before,
            forall|i: int| 0 <= i < p ==> seq_lt(#[trigger] before[i], name@),
        decreases names.len() - p,
    {
        p = p + 1;
    }
    if p < names.len() && names[p] == name {
        assert(before.to_set().insert(name@) =~= before.to_set()) by {
            assert(before[p as int] == name@);
        }
        return;
    }
    proof {
        if p < before.len() {
            assert(before[p as int] != name@);
            lemma_lt_total(before[p as int], name@);
            assert(seq_lt(name@, before[p as int]));
        }
    }
    let ghost nm = name@;
    names.insert(p, name);
    let ghost after = names_of(names@);
    proof {
        assert(after =~= before.insert(p as int, nm));
        assert forall|i: int, j: int| 0 <= i < j < after.len() implies seq_lt(
            #[trigger] after[i],
            #[trigger] after[j],
        ) by {
            if j < p {
            } else if j == p {
            } else if i < p {
                lemma_lt_transitive(before[i], nm, before[p as int]);
                if j - 1 > p {
                    lemma_lt_transitive(before[i], before[p as int], before[j - 1]);
                }
            } else if i == p {
                if j - 1 > p {
                    lemma_lt_transitive(nm, before[p as int], before[j - 1]);
                }
            } else {
            }
        }
        assert(after.to_set() =~= before.to_set().insert(nm)) by {
            assert forall|x: Seq<char>| after.to_set().contains(x) implies before.to_set().insert(
                nm,
            ).contains(x) by {
                let k = choose|k: int| 0 <= k < after.len() && after[k] == x;
                if k < p {
                    assert(before[k] == x);
                } else if k > p {
                    assert(before[k - 1] == x);
                }
            }
            assert forall|x: Seq<char>| before.to_set().insert(nm).contains(x) implies after.to_set().contains(
                x,
            ) by {
                if x == nm {
                    assert(after[p as int] == x);
                } else {
                    let k = choose|k: int| 0 <= k < before.len() && before[k] == x;
                    if k < p {
                        assert(after[k] == x);
                    } else {
                        assert(after[k + 1] == x);
                    }
                }
            }
        }
    }
}

} // verus!
