//! The order in which names are listed.

use vstd::prelude::*;
use vstd::std_specs::iter::IteratorSpec;

verus! {

broadcast use vstd::string::group_string_axioms;

/// Whether `a` comes before `b` in dictionary order, character by character
/// by code point, a proper prefix coming before what it is a prefix of.
pub open spec fn lex_less(a: Seq<char>, b: Seq<char>) -> bool
    decreases a.len(),
{
    if b.len() == 0 {
        false
    } else if a.len() == 0 {
        true
    } else if a[0] != b[0] {
        a[0] < b[0]
    } else {
        lex_less(a.drop_first(), b.drop_first())
    }
}

/// Whether `a` comes before `b` in dictionary order.
pub fn str_less(a: &str, b: &str) -> (r: bool)
    ensures
        r == lex_less(a@, b@),
{
    let mut left = a.chars();
    let mut right = b.chars();
    loop
        invariant
            lex_less(a@, b@) == lex_less(left.remaining(), right.remaining()),
            left.decrease() is Some,
        decreases left.decrease()->0,
    {
        let y = match right.next() {
            Some(y) => y,
            None => {
                return false;
            },
        };
        let x = match left.next() {
            Some(x) => x,
            None => {
                return true;
            },
        };
        if x != y {
            return x < y;
        }
    }
}

/// Nothing comes before itself.
pub proof fn lemma_lex_irreflexive(a: Seq<char>)
    ensures
        !lex_less(a, a),
    decreases a.len(),
{
    if a.len() > 0 {
        lemma_lex_irreflexive(a.drop_first());
    }
}

/// What comes before something that comes before a third comes before the third.
pub proof fn lemma_lex_transitive(a: Seq<char>, b: Seq<char>, c: Seq<char>)
    requires
        lex_less(a, b),
        lex_less(b, c),
    ensures
        lex_less(a, c),
    decreases a.len(),
{
    if a.len() > 0 && a[0] == b[0] && b[0] == c[0] {
        lemma_lex_transitive(a.drop_first(), b.drop_first(), c.drop_first());
    }
}

/// Of two different texts one comes before the other.
pub proof fn lemma_lex_connected(a: Seq<char>, b: Seq<char>)
    requires
        !lex_less(a, b),
        !lex_less(b, a),
    ensures
        a == b,
    decreases a.len(),
{
    if a.len() == 0 || b.len() == 0 {
        assert(a =~= b);
    } else {
        assert(a[0] == b[0]);
        lemma_lex_connected(a.drop_first(), b.drop_first());
        assert(a =~= seq![a[0]] + a.drop_first());
        assert(b =~= seq![b[0]] + b.drop_first());
    }
}

/// Whether `a` and `b` are the same text.
pub fn str_equal(a: &str, b: &str) -> (r: bool)
    ensures
        r == (a@ == b@),
{
    let r = !str_less(a, b) && !str_less(b, a);
    proof {
        if r {
            lemma_lex_connected(a@, b@);
        }
        if a@ == b@ {
            lemma_lex_irreflexive(a@);
        }
    }
    r
}

/// Whether each text of `s` comes before all that follow it, which leaves no
/// room for a repeat.
pub open spec fn names_ascending(s: Seq<Seq<char>>) -> bool {
    forall|i: int, j: int| 0 <= i < j < s.len() ==> lex_less(s[i], s[j])
}

/// The texts of a sequence of strings.
pub open spec fn texts(s: Seq<String>) -> Seq<Seq<char>> {
    s.map_values(|n: String| n@)
}

/// Two ascending sequences with the same members are the same sequence: the
/// order of an ascending sequence is settled by what it holds.
pub proof fn lemma_ascending_unique(s: Seq<Seq<char>>, t: Seq<Seq<char>>)
    requires
        names_ascending(s),
        names_ascending(t),
        forall|x: Seq<char>| s.contains(x) <==> t.contains(x),
    ensures
        s == t,
    decreases s.len(),
{
    if s.len() == 0 {
        if t.len() > 0 {
            assert(t.contains(t[0]));
        }
        assert(s =~= t);
    } else {
        let top = s.last();
        assert(s.contains(top));
        assert(t.contains(top));
        let k = choose|k: int| 0 <= k < t.len() && t[k] == top;
        assert(t.contains(t.last()));
        let m = choose|m: int| 0 <= m < s.len() && s[m] == t.last();
        if k < t.len() - 1 {
            assert(lex_less(t[k], t[t.len() - 1]));
            if m < s.len() - 1 {
                assert(lex_less(s[m], s[s.len() - 1]));
                lemma_lex_transitive(top, t.last(), top);
            }
            lemma_lex_irreflexive(top);
        }
        assert(t.last() == top);
        let s0 = s.drop_last();
        let t0 = t.drop_last();
        assert forall|x: Seq<char>| s0.contains(x) <==> t0.contains(x) by {
            if s0.contains(x) {
                let i = choose|i: int| 0 <= i < s0.len() && s0[i] == x;
                assert(lex_less(s[i], s[s.len() - 1]));
                assert(s.contains(x));
                let j = choose|j: int| 0 <= j < t.len() && t[j] == x;
                if j == t.len() - 1 {
                    lemma_lex_irreflexive(top);
                }
                assert(t0[j] == x);
            }
            if t0.contains(x) {
                let i = choose|i: int| 0 <= i < t0.len() && t0[i] == x;
                assert(lex_less(t[i], t[t.len() - 1]));
                assert(t.contains(x));
                let j = choose|j: int| 0 <= j < s.len() && s[j] == x;
                if j == s.len() - 1 {
                    lemma_lex_irreflexive(top);
                }
                assert(s0[j] == x);
            }
        }
        lemma_ascending_unique(s0, t0);
        assert(s =~= s0.push(top));
        assert(t =~= t0.push(top));
    }
}

/// An ascending sequence can take in one more text and stay ascending: the
/// result holds what `s` held and `name`, and nothing else, so it is longer
/// by one exactly where `s` did not hold `name`.
pub proof fn lemma_name_inserted(s: Seq<Seq<char>>, name: Seq<char>) -> (t: Seq<Seq<char>>)
    requires
        names_ascending(s),
    ensures
        names_ascending(t),
        forall|x: Seq<char>| t.contains(x) <==> (s.contains(x) || x == name),
        t.len() == s.len() + if s.contains(name) {
            0int
        } else {
            1int
        },
    decreases s.len(),
{
    if s.len() == 0 {
        let t = seq![name];
        assert(t[0] == name);
        t
    } else if s.last() == name {
        assert(s[s.len() - 1] == name);
        s
    } else if lex_less(s.last(), name) {
        let t = s.push(name);
        assert forall|i: int, j: int| 0 <= i < j < t.len() implies lex_less(t[i], t[j]) by {
            if j == s.len() && i < s.len() - 1 {
                assert(lex_less(s[i], s[s.len() - 1]));
                lemma_lex_transitive(s[i], s.last(), name);
            }
        }
        assert forall|x: Seq<char>| t.contains(x) <==> (s.contains(x) || x == name) by {
            if t.contains(x) {
                let i = choose|i: int| 0 <= i < t.len() && t[i] == x;
                if i < s.len() {
                    assert(s[i] == x);
                }
            }
            if s.contains(x) {
                let i = choose|i: int| 0 <= i < s.len() && s[i] == x;
                assert(t[i] == x);
            }
            if x == name {
                assert(t[s.len() as int] == x);
            }
        }
        if s.contains(name) {
            let i = choose|i: int| 0 <= i < s.len() && s[i] == name;
            if i < s.len() - 1 {
                assert(lex_less(s[i], s[s.len() - 1]));
                lemma_lex_transitive(name, s.last(), name);
            }
            lemma_lex_irreflexive(name);
        }
        t
    } else {
        let top = s.last();
        lemma_lex_connected_or_less(top, name);
        let s0 = s.drop_last();
        let t0 = lemma_name_inserted(s0, name);
        let t = t0.push(top);
        assert forall|i: int, j: int| 0 <= i < j < t.len() implies lex_less(t[i], t[j]) by {
            if j == t0.len() {
                assert(t0.contains(t0[i]));
                if s0.contains(t0[i]) {
                    let k = choose|k: int| 0 <= k < s0.len() && s0[k] == t0[i];
                    assert(lex_less(s[k], s[s.len() - 1]));
                }
            }
        }
        assert forall|x: Seq<char>| t.contains(x) <==> (s.contains(x) || x == name) by {
            if t.contains(x) {
                let i = choose|i: int| 0 <= i < t.len() && t[i] == x;
                if i < t0.len() {
                    assert(t0.contains(t0[i]));
                    if s0.contains(x) {
                        let k = choose|k: int| 0 <= k < s0.len() && s0[k] == x;
                        assert(s[k] == x);
                    }
                } else {
                    assert(s[s.len() - 1] == x);
                }
            }
            if s.contains(x) {
                let i = choose|i: int| 0 <= i < s.len() && s[i] == x;
                if i < s.len() - 1 {
                    assert(s0[i] == x);
                    assert(s0.contains(x));
                    assert(t0.contains(x));
                    let k = choose|k: int| 0 <= k < t0.len() && t0[k] == x;
                    assert(t[k] == x);
                } else {
                    assert(t[t0.len() as int] == x);
                }
            }
            if x == name {
                assert(t0.contains(x));
                let k = choose|k: int| 0 <= k < t0.len() && t0[k] == x;
                assert(t[k] == x);
            }
        }
        if s.contains(name) {
            let i = choose|i: int| 0 <= i < s.len() && s[i] == name;
            assert(s0[i] == name);
        }
        if s0.contains(name) {
            let i = choose|i: int| 0 <= i < s0.len() && s0[i] == name;
            assert(s[i] == name);
        }
        t
    }
}

/// Where `a` neither is `b` nor comes before it, `b` comes before `a`.
pub proof fn lemma_lex_connected_or_less(a: Seq<char>, b: Seq<char>)
    requires
        a != b,
        !lex_less(a, b),
    ensures
        lex_less(b, a),
{
    if !lex_less(b, a) {
        lemma_lex_connected(a, b);
    }
}

/// The first position in `names` whose text does not come before `name`.
fn position_of(names: &Vec<String>, name: &String) -> (i: usize)
    ensures
        i <= names@.len(),
        forall|k: int| 0 <= k < i ==> lex_less(#[trigger] names@[k]@, name@),
        i < names@.len() ==> !lex_less(names@[i as int]@, name@),
{
    let mut i: usize = 0;
    while i < names.len()
        invariant
            i <= names@.len(),
            forall|k: int| 0 <= k < i ==> lex_less(#[trigger] names@[k]@, name@),
        decreases names@.len() - i,
    {
        if !str_less(names[i].as_str(), name.as_str()) {
            return i;
        }
        i = i + 1;
    }
    i
}

/// Puts `name` into the ascending list `names` at its place, unless the list
/// holds it already.
pub fn insert_name(names: &mut Vec<String>, name: &String)
    requires
        names_ascending(texts(old(names)@)),
    ensures
        names_ascending(texts(final(names)@)),
        forall|x: Seq<char>|
            texts(final(names)@).contains(x) <==> (texts(old(names)@).contains(x) || x == name@),
{
    let i = position_of(names, name);
    let ghost before = texts(names@);
    if i < names.len() && names[i] == *name {
        assert(before[i as int] == name@);
        return ;
    }
    let fresh = name.clone();
    names.insert(i, fresh);
    proof {
        let after = texts(names@);
        assert(after =~= before.insert(i as int, name@));
        assert forall|a: int, b: int| 0 <= a < b < after.len() implies lex_less(
            after[a],
            after[b],
        ) by {
            let a0 = if a < i { a } else { a - 1 };
            let b0 = if b < i { b } else { b - 1 };
            if a == i {
                lemma_lex_connected_or_less(before[i as int], name@);
                if b0 > i {
                    assert(lex_less(before[i as int], before[b0]));
                    lemma_lex_transitive(name@, before[i as int], before[b0]);
                }
            } else if b == i {
                assert(lex_less(old(names)@[a0]@, name@));
            } else {
                assert(lex_less(before[a0], before[b0]));
            }
        }
        assert forall|x: Seq<char>| after.contains(x) <==> (before.contains(x) || x == name@) by {
            if after.contains(x) {
                let k = choose|k: int| 0 <= k < after.len() && after[k] == x;
                if k < i {
                    assert(before[k] == x);
                } else if k > i {
                    assert(before[k - 1] == x);
                }
            }
            if before.contains(x) {
                let k = choose|k: int| 0 <= k < before.len() && before[k] == x;
                if k < i {
                    assert(after[k] == x);
                } else {
                    assert(after[k + 1] == x);
                }
            }
            if x == name@ {
                assert(after[i as int] == x);
            }
        }
    }
}

} // verus!
