//! The file selector: from a directory listing to the names that qualify,
//! which are exactly the regular files whose name starts with at least one
//! configured prefix. Listing the directory itself is the caller's; the
//! selection rule is here.

use crate::errors::PathError;
use crate::text::starts_with;
use vstd::prelude::*;

verus! {

/// True when the name starts with at least one of the prefixes.
pub open spec fn name_matches(name: Seq<char>, prefixes: Seq<Seq<char>>) -> bool {
    exists|j: int| 0 <= j < prefixes.len() && (#[trigger] prefixes[j]).is_prefix_of(name)
}

/// The selection rule as a predicate on one name.
pub open spec fn match_pred(prefixes: Seq<Seq<char>>) -> spec_fn(Seq<char>) -> bool {
    |n: Seq<char>| name_matches(n, prefixes)
}

/// The names selected from a listing: exactly those that start with at
/// least one prefix, in listing order.
pub open spec fn selected_names(names: Seq<Seq<char>>, prefixes: Seq<Seq<char>>) -> Seq<Seq<char>> {
    names.filter(match_pred(prefixes))
}

/// True when this name starts with at least one of the prefixes.
pub fn matches_any(name: &String, prefixes: &Vec<String>) -> (r: bool)
    ensures
        r == name_matches(name@, prefixes.deep_view()),
{
    let n = prefixes.len();
    let mut j: usize = 0;
    while j < n
        invariant
            j <= n,
            n == prefixes@.len(),
            forall|k: int| 0 <= k < j ==> !(#[trigger] prefixes.deep_view()[k]).is_prefix_of(name@),
        decreases n - j,
    {
        if starts_with(name.as_str(), prefixes[j].as_str()) {
            proof {
                assert(prefixes.deep_view()[j as int] == prefixes@[j as int]@);
            }
            return true;
        }
        j += 1;
    }
    false
}

/// Selects from the listed names those that start with at least one of the
/// prefixes, keeping the listing order; fails with `NoMatchingFiles` when
/// none does.
pub fn select_names(names: &Vec<String>, prefixes: &Vec<String>) -> (r: Result<
    Vec<String>,
    PathError,
>)
    ensures
        match r {
            Ok(sel) => sel.deep_view() == selected_names(names.deep_view(), prefixes.deep_view())
                && sel@.len() > 0,
            Err(e) => e == PathError::NoMatchingFiles && selected_names(
                names.deep_view(),
                prefixes.deep_view(),
            ) == Seq::<Seq<char>>::empty(),
        },
{
    let n = names.len();
    let mut sel: Vec<String> = Vec::new();
    let mut i: usize = 0;
    while i < n
        invariant
            i <= n,
            n == names@.len(),
            sel.deep_view() == selected_names(
                names.deep_view().subrange(0, i as int),
                prefixes.deep_view(),
            ),
        decreases n - i,
    {
        let ghost dv = names.deep_view();
        let ghost pv = prefixes.deep_view();
        let ghost before = sel.deep_view();
        let name = &names[i];
        proof {
            reveal(Seq::filter);
            assert(dv[i as int] == names@[i as int]@);
            assert(dv.subrange(0, i + 1).drop_last() =~= dv.subrange(0, i as int));
            assert(dv.subrange(0, i + 1).last() == dv[i as int]);
        }
        if matches_any(name, prefixes) {
            sel.push(name.clone());
            proof {
                assert(sel.deep_view() =~= before.push(dv[i as int]));
                assert(sel.deep_view() =~= selected_names(dv.subrange(0, i + 1), pv));
            }
        } else {
            proof {
                assert(sel.deep_view() =~= selected_names(dv.subrange(0, i + 1), pv));
            }
        }
        i += 1;
    }
    proof {
        assert(names.deep_view().subrange(0, n as int) =~= names.deep_view());
    }
    if sel.len() == 0 {
        proof {
            assert(sel.deep_view().len() == 0);
            assert(selected_names(names.deep_view(), prefixes.deep_view()) =~= Seq::<
                Seq<char>,
            >::empty());
        }
        Err(PathError::NoMatchingFiles)
    } else {
        Ok(sel)
    }
}

/// The selection law: every selected name starts with a prefix and was
/// listed; every listed name that starts with a prefix is selected; as
/// sets, the selected names are exactly the matching listed names.
pub proof fn lemma_selected_names_exact(names: Seq<Seq<char>>, prefixes: Seq<Seq<char>>)
    ensures
        forall|k: int|
            0 <= k < selected_names(names, prefixes).len() ==> name_matches(
                #[trigger] selected_names(names, prefixes)[k],
                prefixes,
            ) && names.contains(selected_names(names, prefixes)[k]),
        forall|i: int|
            0 <= i < names.len() && name_matches(#[trigger] names[i], prefixes) ==> selected_names(
                names,
                prefixes,
            ).contains(names[i]),
        selected_names(names, prefixes).to_set() =~= names.to_set().filter(
            |n: Seq<char>| name_matches(n, prefixes),
        ),
{
    broadcast use vstd::seq_lib::group_filter_ensures;

    let sel = selected_names(names, prefixes);
    let pred = match_pred(prefixes);
    assert forall|k: int| 0 <= k < sel.len() implies name_matches(#[trigger] sel[k], prefixes)
        && names.contains(sel[k]) by {
        assert(pred(sel[k]));
        assert(sel.contains(sel[k]));
        lemma_filter_subset(names, pred, sel[k]);
    }
    assert forall|i: int|
        0 <= i < names.len() && name_matches(#[trigger] names[i], prefixes) implies sel.contains(
        names[i],
    ) by {
        assert(pred(names[i]));
        assert(names.filter(pred).contains(names[i]));
    }
    assert forall|x: Seq<char>| #[trigger]
        sel.to_set().contains(x) implies names.to_set().filter(pred).contains(x) by {
        let k = choose|k: int| 0 <= k < sel.len() && sel[k] == x;
        assert(pred(sel[k]));
        lemma_filter_subset(names, pred, x);
        assert(names.contains(x));
    }
    assert forall|x: Seq<char>| #[trigger]
        names.to_set().filter(pred).contains(x) implies sel.to_set().contains(x) by {
        let i = choose|i: int| 0 <= i < names.len() && names[i] == x;
        assert(pred(names[i]));
        assert(names.filter(pred).contains(names[i]));
    }
    assert(sel.to_set() =~= names.to_set().filter(pred));
}

/// Every element the filter keeps was an element of the sequence.
proof fn lemma_filter_subset(s: Seq<Seq<char>>, pred: spec_fn(Seq<char>) -> bool, x: Seq<char>)
    requires
        s.filter(pred).contains(x),
    ensures
        s.contains(x),
    decreases s.len(),
{
    reveal(Seq::filter);
    if s.len() > 0 {
        let sub = s.drop_last().filter(pred);
        if pred(s.last()) {
            if x == s.last() {
                assert(s[s.len() - 1] == x);
            } else {
                let k = choose|k: int| 0 <= k < s.filter(pred).len() && s.filter(pred)[k] == x;
                assert(sub[k] == x);
                lemma_filter_subset(s.drop_last(), pred, x);
                let j = choose|j: int| 0 <= j < s.drop_last().len() && s.drop_last()[j] == x;
                assert(s[j] == x);
            }
        } else {
            lemma_filter_subset(s.drop_last(), pred, x);
            let j = choose|j: int| 0 <= j < s.drop_last().len() && s.drop_last()[j] == x;
            assert(s[j] == x);
        }
    }
}

} // verus!
