//! The index of saved login profiles: the names kept next to the system
//! keychain, which cannot list its entries. Reading and writing the index
//! file, and the keychain itself, are the caller's.

use vstd::prelude::*;
use crate::text::chars_of;
use crate::wbi::{text_less, text_lt};

verus! {

/// Where insertion puts `x` among sorted names: before the first greater one.
pub open spec fn name_pos(sorted: Seq<Seq<char>>, x: Seq<char>) -> int
    decreases sorted.len(),
{
    if sorted.len() == 0 {
        0
    } else if text_lt(x, sorted[0]) {
        0
    } else {
        1 + name_pos(sorted.drop_first(), x)
    }
}

/// The names in order (by code point, that is by UTF-8 bytes).
pub open spec fn sort_names(s: Seq<Seq<char>>) -> Seq<Seq<char>>
    decreases s.len(),
{
    if s.len() == 0 {
        seq![]
    } else {
        let rest = sort_names(s.drop_last());
        rest.insert(name_pos(rest, s.last()), s.last())
    }
}

proof fn lemma_name_pos_bound(sorted: Seq<Seq<char>>, x: Seq<char>)
    ensures
        0 <= name_pos(sorted, x) <= sorted.len(),
    decreases sorted.len(),
{
    if sorted.len() > 0 {
        lemma_name_pos_bound(sorted.drop_first(), x);
    }
}

/// Sorting keeps exactly the names it was given.
pub proof fn lemma_sort_names_contains(s: Seq<Seq<char>>, x: Seq<char>)
    ensures
        sort_names(s).len() == s.len(),
        sort_names(s).contains(x) <==> s.contains(x),
    decreases s.len(),
{
    if s.len() > 0 {
        let d = s.drop_last();
        lemma_sort_names_contains(d, x);
        let rest = sort_names(d);
        let p = name_pos(rest, s.last());
        lemma_name_pos_bound(rest, s.last());
        let t = rest.insert(p, s.last());
        assert(t.len() == rest.len() + 1);
        if t.contains(x) {
            let j = choose|j: int| 0 <= j < t.len() && t[j] == x;
            if j < p {
                assert(rest[j] == x);
                assert(rest.contains(x));
            } else if j > p {
                assert(rest[j - 1] == x);
                assert(rest.contains(x));
            }
            if x != s.last() {
                let k = choose|k: int| 0 <= k < d.len() && d[k] == x;
                assert(s[k] == x);
            } else {
                assert(s[s.len() - 1] == x);
            }
        }
        if s.contains(x) {
            let k = choose|k: int| 0 <= k < s.len() && s[k] == x;
            if k == s.len() - 1 {
                assert(t[p] == x);
            } else {
                assert(d[k] == x);
                assert(d.contains(x));
                assert(rest.contains(x));
                let j = choose|j: int| 0 <= j < rest.len() && rest[j] == x;
                if j < p {
                    assert(t[j] == x);
                } else {
                    assert(t[j + 1] == x);
                }
            }
        }
    }
}

/// The names of strings.
pub open spec fn names_view(v: Seq<String>) -> Seq<Seq<char>> {
    v.map_values(|s: String| s@)
}

/// The names in order (see [`sort_names`]).
pub fn sorted_names(names: &Vec<String>) -> (r: Vec<String>)
    ensures
        names_view(r@) == sort_names(names_view(names@)),
{
    let ghost input = names_view(names@);
    let mut sorted: Vec<String> = Vec::new();
    let mut keys: Vec<Vec<char>> = Vec::new();
    let mut i: usize = 0;
    while i < names.len()
        invariant
            i <= names@.len(),
            input == names_view(names@),
            names_view(sorted@) == sort_names(input.take(i as int)),
            keys@.len() == sorted@.len(),
            forall|k: int| 0 <= k < keys@.len() ==> #[trigger] keys@[k]@ == sorted@[k]@,
        decreases names.len() - i,
    {
        let x = names[i].clone();
        let xk = chars_of(x.as_str());
        let ghost before = names_view(sorted@);
        let mut pos: usize = 0;
        proof {
            lemma_sort_names_contains(input.take(i as int), seq![]);
            assert(before.skip(0) == before);
        }
        while pos < sorted.len() && !text_less(&xk, &keys[pos])
            invariant
                pos <= sorted@.len(),
                keys@.len() == sorted@.len(),
                forall|k: int| 0 <= k < keys@.len() ==> #[trigger] keys@[k]@ == sorted@[k]@,
                before == names_view(sorted@),
                xk@ == x@,
                name_pos(before, x@) == pos + name_pos(before.skip(pos as int), x@),
            decreases sorted.len() - pos,
        {
            assert(before.skip(pos as int).drop_first() == before.skip(pos + 1));
            assert(before.skip(pos as int)[0] == keys@[pos as int]@);
            pos = pos + 1;
        }
        proof {
            if pos < sorted@.len() {
                assert(before.skip(pos as int)[0] == keys@[pos as int]@);
            }
            assert(name_pos(before.skip(pos as int), x@) == 0);
            let t = input.take(i + 1);
            assert(t.drop_last() == input.take(i as int));
            assert(t.last() == x@);
        }
        sorted.insert(pos, x);
        keys.insert(pos, xk);
        proof {
            assert(names_view(sorted@) =~= before.insert(pos as int, xk@));
        }
        i = i + 1;
    }
    assert(input.take(names@.len() as int) == input);
    sorted
}

/// The index after saving the profile `name`: unchanged (`None`, nothing to
/// write) when it already holds the name; otherwise the names and `name`,
/// sorted.
pub fn add_to_index(names: &Vec<String>, name: &str) -> (r: Option<Vec<String>>)
    ensures
        names_view(names@).contains(name@) <==> r is None,
        r matches Some(v) ==> names_view(v@) == sort_names(names_view(names@).push(name@)),
{
    let mut i: usize = 0;
    let n = crate::text::owned(name);
    while i < names.len()
        invariant
            i <= names@.len(),
            n@ == name@,
            forall|k: int| 0 <= k < i ==> #[trigger] names@[k]@ != name@,
        decreases names.len() - i,
    {
        if names[i] == n {
            assert(names_view(names@)[i as int] == name@);
            return None;
        }
        i = i + 1;
    }
    proof {
        if names_view(names@).contains(name@) {
            let k = choose|k: int| 0 <= k < names@.len() && names_view(names@)[k] == name@;
            assert(names@[k]@ == name@);
        }
    }
    let mut all: Vec<String> = names.clone();
    proof {
        assert(names_view(all@) == names_view(names@));
    }
    all.push(n);
    assert(names_view(all@) =~= names_view(names@).push(name@));
    Some(sorted_names(&all))
}

/// The index after deleting the profile `name`: the other names, in order.
pub fn remove_from_index(names: &Vec<String>, name: &str) -> (r: Vec<String>)
    ensures
        names_view(r@) == names_view(names@).filter(|s: Seq<char>| s != name@),
{
    let ghost input = names_view(names@);
    let ghost other = |s: Seq<char>| s != name@;
    let n = crate::text::owned(name);
    let mut r: Vec<String> = Vec::new();
    let mut i: usize = 0;
    while i < names.len()
        invariant
            i <= names@.len(),
            n@ == name@,
            input == names_view(names@),
            other == (|s: Seq<char>| s != name@),
            names_view(r@) == input.take(i as int).filter(other),
        decreases names.len() - i,
    {
        assert(input.take(i + 1).drop_last() == input.take(i as int));
        assert(input.take(i + 1).last() == names@[i as int]@);
        assert(input.take(i + 1).filter(other) == if other(names@[i as int]@) {
            input.take(i as int).filter(other).push(names@[i as int]@)
        } else {
            input.take(i as int).filter(other)
        }) by {
            reveal(Seq::filter);
        }
        if names[i] != n {
            let s = names[i].clone();
            proof {
                let old_r = r@;
                assert(names_view(old_r.push(s)) =~= names_view(old_r).push(s@));
            }
            r.push(s);
        }
        i = i + 1;
    }
    assert(input.take(input.len() as int) == input);
    r
}

/// Saving a profile leaves its name in the index and keeps every name that
/// was there, and no other.
pub proof fn law_add_keeps_names(names: Seq<Seq<char>>, name: Seq<char>, other: Seq<char>)
    ensures
        sort_names(names.push(name)).contains(name),
        sort_names(names.push(name)).contains(other) <==> (names.contains(other) || other == name),
{
    lemma_sort_names_contains(names.push(name), name);
    lemma_sort_names_contains(names.push(name), other);
    assert(names.push(name)[names.len() as int] == name);
    if names.push(name).contains(other) && other != name {
        let k = choose|k: int| 0 <= k < names.len() + 1 && names.push(name)[k] == other;
        assert(names[k] == other);
    }
    if names.contains(other) {
        let k = choose|k: int| 0 <= k < names.len() && names[k] == other;
        assert(names.push(name)[k] == other);
    }
}

/// Deleting a profile removes its name from the index and keeps every other.
pub proof fn law_remove_drops_only_name(names: Seq<Seq<char>>, name: Seq<char>, other: Seq<char>)
    ensures
        !names.filter(|s: Seq<char>| s != name).contains(name),
        other != name ==> (names.filter(|s: Seq<char>| s != name).contains(other)
            <==> names.contains(other)),
{
    let f = |s: Seq<char>| s != name;
    if names.filter(f).contains(name) {
        let k = choose|k: int| 0 <= k < names.filter(f).len() && names.filter(f)[k] == name;
        names.lemma_filter_pred(f, k);
    }
    if other != name {
        if names.filter(f).contains(other) {
            names.lemma_filter_contains_rev(f, other);
        }
        if names.contains(other) {
            let k = choose|k: int| 0 <= k < names.len() && names[k] == other;
            names.lemma_filter_contains(f, k);
        }
    }
}


} // verus!
