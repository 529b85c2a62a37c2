//! The search popup: a query, the positions of the packages that match it, and the
//! match the user is on.
use vstd::prelude::*;

use crate::gentoo::package::{PackageKey, qualified};
use crate::text::{contains_str, has_substring, lowercase, to_lowercase};

verus! {

/// A package key matches a query when its `category/name`, lowercased, holds the
/// lowercased query.
pub open spec fn key_matches(key: (Seq<char>, Seq<char>), query: Seq<char>) -> bool {
    has_substring(lowercase(qualified(key)), lowercase(query))
}

/// The positions, in increasing order, of the keys that match `query`.
pub open spec fn search_hits(keys: Seq<(Seq<char>, Seq<char>)>, query: Seq<char>) -> Seq<usize>
    decreases keys.len(),
{
    if keys.len() == 0 {
        seq![]
    } else if key_matches(keys.last(), query) {
        search_hits(keys.drop_last(), query).push((keys.len() - 1) as usize)
    } else {
        search_hits(keys.drop_last(), query)
    }
}

/// The keys that references point to.
pub open spec fn key_refs_view(v: Seq<&PackageKey>) -> Seq<(Seq<char>, Seq<char>)> {
    v.map_values(|k: &PackageKey| k@)
}

/// The match after the `i`th of `n`, going round to the first after the last.
pub open spec fn next_index(i: int, n: int) -> int {
    (i + 1) % n
}

/// The match before the `i`th of `n`, going round to the last before the first.
pub open spec fn previous_index(i: int, n: int) -> int {
    (i + n - 1) % n
}

/// The selected match after moving to the next of `n` matches.
pub open spec fn match_after_next(selected: Option<usize>, n: nat) -> Option<usize> {
    match selected {
        Some(i) => Some(next_index(i as int, n as int) as usize),
        None => None,
    }
}

/// The selected match after moving to the previous of `n` matches.
pub open spec fn match_after_previous(selected: Option<usize>, n: nat) -> Option<usize> {
    match selected {
        Some(i) => Some(previous_index(i as int, n as int) as usize),
        None => None,
    }
}

/// The positions of the keys that match `query`, in increasing order.
pub fn matching_positions(packages: &Vec<&PackageKey>, query: &str) -> (r: Vec<usize>)
    ensures
        r@ == search_hits(key_refs_view(packages@), query@),
        query@.len() == 0 ==> forall|k: int|
            0 <= k < packages@.len() ==> key_matches(#[trigger] key_refs_view(packages@)[k], query@),
{
    let q = to_lowercase(query);
    proof {
        if query@.len() == 0 {
            assert forall|k: int| 0 <= k < packages@.len() implies key_matches(
                #[trigger] key_refs_view(packages@)[k],
                query@,
            ) by {
                let name = lowercase(qualified(key_refs_view(packages@)[k]));
                let needle = lowercase(query@);
                assert(needle.len() == 0);
                assert(name.subrange(0, 0 + needle.len() as int) =~= needle);
            }
        }
    }
    let n = packages.len();
    let ghost keys = key_refs_view(packages@);
    let mut out: Vec<usize> = Vec::new();
    let mut i: usize = 0;
    assert(keys.take(0) =~= seq![]);
    while i < n
        invariant
            n == packages@.len(),
            keys == key_refs_view(packages@),
            q@ == lowercase(query@),
            i <= n,
            out@ == search_hits(keys.take(i as int), query@),
        decreases n - i,
    {
        let ghost t = keys.take(i + 1);
        assert(t.drop_last() =~= keys.take(i as int));
        assert(t.last() == packages@[i as int]@);
        let name = to_lowercase(packages[i].qualified_name().as_str());
        if contains_str(name.as_str(), q.as_str()) {
            out.push(i);
        }
        i = i + 1;
    }
    assert(keys.take(n as int) =~= keys);
    out
}

proof fn lemma_hits_bounded(keys: Seq<(Seq<char>, Seq<char>)>, query: Seq<char>)
    ensures
        search_hits(keys, query).len() <= keys.len(),
        forall|j: int|
            0 <= j < search_hits(keys, query).len() ==> #[trigger] search_hits(keys, query)[j]
                < keys.len(),
    decreases keys.len(),
{
    if keys.len() > 0 {
        lemma_hits_bounded(keys.drop_last(), query);
    }
}

/// The hits of a search are exactly the positions of the keys that match the query,
/// in increasing order.
pub proof fn law_search_hits_exact(keys: Seq<(Seq<char>, Seq<char>)>, query: Seq<char>)
    requires
        keys.len() <= usize::MAX,
    ensures
        forall|k: int|
            0 <= k < search_hits(keys, query).len() ==> #[trigger] search_hits(keys, query)[k] < keys.len()
                && key_matches(keys[search_hits(keys, query)[k] as int], query),
        forall|k1: int, k2: int|
            0 <= k1 < k2 < search_hits(keys, query).len() ==> #[trigger] search_hits(keys, query)[k1]
                < #[trigger] search_hits(keys, query)[k2],
        forall|j: int|
            0 <= j < keys.len() && key_matches(#[trigger] keys[j], query) ==> search_hits(keys, query).contains(
                j as usize,
            ),
    decreases keys.len(),
{
    if keys.len() > 0 {
        let t = keys.drop_last();
        law_search_hits_exact(t, query);
        let h = search_hits(t, query);
        assert forall|j: int| 0 <= j < keys.len() && key_matches(#[trigger] keys[j], query) implies search_hits(keys, query).contains(j as usize) by {
            if j < keys.len() - 1 {
                assert(t[j] == keys[j]);
                let k = choose|k: int| 0 <= k < h.len() && h[k] == j as usize;
                assert(search_hits(keys, query)[k] == j as usize);
            } else {
                assert(search_hits(keys, query).last() == j as usize);
            }
        }
    }
}

/// With every key matching, the first hit is the first key.
pub proof fn lemma_all_match_first_hit(keys: Seq<(Seq<char>, Seq<char>)>, query: Seq<char>)
    requires
        0 < keys.len() <= usize::MAX,
        key_matches(keys[0], query),
    ensures
        search_hits(keys, query).len() > 0,
        search_hits(keys, query)[0] == 0,
{
    law_search_hits_exact(keys, query);
    let hits = search_hits(keys, query);
    assert(hits.contains(0usize));
    let k = choose|k: int| 0 <= k < hits.len() && hits[k] == 0usize;
    if k > 0 {
        assert(hits[0] < hits[k]);
    }
}

/// The state of the search popup.
#[derive(Debug)]
pub struct SearchPopup {
    visible: bool,
    query: String,
    matches: Vec<usize>,
    selected_match: Option<usize>,
}

impl SearchPopup {
    #[verifier::type_invariant]
    spec fn inv(&self) -> bool {
        &&& self.matches@.len() < usize::MAX / 2
        &&& match self.selected_match {
            Some(i) => i < self.matches@.len(),
            None => self.matches@.len() == 0,
        }
    }

    /// Whether the popup shows.
    pub closed spec fn is_visible(&self) -> bool {
        self.visible
    }

    /// The text searched for.
    pub closed spec fn query_view(&self) -> Seq<char> {
        self.query@
    }

    /// The positions of the packages that matched the last search.
    pub closed spec fn matches_view(&self) -> Seq<usize> {
        self.matches@
    }

    /// Which of the matches the user is on.
    pub closed spec fn selected_view(&self) -> Option<usize> {
        self.selected_match
    }

    /// What holds of every popup: there are fewer than `usize::MAX / 2` matches, a
    /// selected match is one of the matches, and there is one exactly when there are
    /// matches.
    pub open spec fn consistent(&self) -> bool {
        &&& self.matches_view().len() < usize::MAX / 2
        &&& match self.selected_view() {
            Some(i) => i < self.matches_view().len(),
            None => self.matches_view().len() == 0,
        }
    }

    /// A hidden popup with an empty query and no matches.
    pub fn new() -> (r: Self)
        ensures
            !r.is_visible(),
            r.query_view() == Seq::<char>::empty(),
            r.matches_view() == Seq::<usize>::empty(),
            r.selected_view() is None,
            r.consistent(),
    {
        SearchPopup { visible: false, query: String::new(), matches: Vec::new(), selected_match: None }
    }

    /// Whether the popup shows.
    pub fn visible(&self) -> (r: bool)
        ensures
            r == self.is_visible(),
    {
        self.visible
    }

    /// The text searched for.
    pub fn query(&self) -> (r: &String)
        ensures
            r@ == self.query_view(),
    {
        &self.query
    }

    /// Sets the text searched for, as the user typed it.
    pub fn set_query(&mut self, text: String)
        ensures
            final(self).query_view() == text@,
            final(self).is_visible() == old(self).is_visible(),
            final(self).matches_view() == old(self).matches_view(),
            final(self).selected_view() == old(self).selected_view(),
            final(self).consistent(),
    {
        proof {
            use_type_invariant(&*self);
        }
        self.query = text;
        proof {
            use_type_invariant(&*self);
        }
    }

    /// Shows a hidden popup, hides a shown one, and empties the query.
    pub fn toggle(&mut self)
        ensures
            final(self).is_visible() == !old(self).is_visible(),
            final(self).query_view() == Seq::<char>::empty(),
            final(self).matches_view() == old(self).matches_view(),
            final(self).selected_view() == old(self).selected_view(),
            final(self).consistent(),
    {
        proof {
            use_type_invariant(&*self);
        }
        self.visible = !self.visible;
        self.query = String::new();
        proof {
            use_type_invariant(&*self);
        }
    }

    /// Searches `packages` for the query: the matches become the positions of the
    /// packages that match, and the first of them is selected and given back.
    pub fn search(&mut self, packages: Vec<&PackageKey>) -> (r: Option<usize>)
        requires
            packages@.len() < usize::MAX / 2,
        ensures
            final(self).matches_view() == search_hits(key_refs_view(packages@), old(self).query_view()),
            final(self).query_view() == old(self).query_view(),
            final(self).is_visible() == old(self).is_visible(),
            if final(self).matches_view().len() == 0 {
                r is None && final(self).selected_view() is None
            } else {
                r == Some(final(self).matches_view()[0]) && final(self).selected_view() == Some(0usize)
            },
            final(self).consistent(),
            old(self).query_view().len() == 0 && packages@.len() > 0 ==> r == Some(0usize),
    {
        proof {
            use_type_invariant(&*self);
        }
        let indexes = matching_positions(&packages, self.query.as_str());
        proof {
            lemma_hits_bounded(key_refs_view(packages@), self.query@);
            if self.query@.len() == 0 && packages@.len() > 0 {
                lemma_all_match_first_hit(key_refs_view(packages@), self.query@);
            }
        }
        let mut query = String::new();
        std::mem::swap(&mut query, &mut self.query);
        let visible = self.visible;
        if indexes.len() == 0 {
            *self = SearchPopup { visible, query, matches: Vec::new(), selected_match: None };
            None
        } else {
            let first = indexes[0];
            *self = SearchPopup { visible, query, matches: indexes, selected_match: Some(0) };
            Some(first)
        }
    }

    /// The position of the package of the selected match.
    pub fn current_match(&self) -> (r: Option<usize>)
        ensures
            r == match self.selected_view() {
                Some(i) => Some(self.matches_view()[i as int]),
                None => None,
            },
    {
        proof {
            use_type_invariant(self);
        }
        if let Some(index) = self.selected_match {
            Some(self.matches[index])
        } else {
            None
        }
    }

    /// Moves to the next match, from the last to the first, and gives its package's
    /// position.
    pub fn next_match(&mut self) -> (r: Option<usize>)
        ensures
            final(self).selected_view() == match_after_next(old(self).selected_view(), old(self).matches_view().len()),
            final(self).matches_view() == old(self).matches_view(),
            final(self).query_view() == old(self).query_view(),
            final(self).is_visible() == old(self).is_visible(),
            r == match final(self).selected_view() {
                Some(i) => Some(final(self).matches_view()[i as int]),
                None => None,
            },
            final(self).consistent(),
    {
        proof {
            use_type_invariant(&*self);
        }
        if let Some(index) = self.selected_match {
            self.selected_match = Some((index + 1) % self.matches.len());
        }
        proof {
            use_type_invariant(&*self);
        }
        self.current_match()
    }

    /// Moves to the previous match, from the first to the last, and gives its package's
    /// position.
    pub fn previous_match(&mut self) -> (r: Option<usize>)
        ensures
            final(self).selected_view() == match_after_previous(old(self).selected_view(), old(self).matches_view().len()),
            final(self).matches_view() == old(self).matches_view(),
            final(self).query_view() == old(self).query_view(),
            final(self).is_visible() == old(self).is_visible(),
            r == match final(self).selected_view() {
                Some(i) => Some(final(self).matches_view()[i as int]),
                None => None,
            },
            final(self).consistent(),
    {
        proof {
            use_type_invariant(&*self);
        }
        if let Some(index) = self.selected_match {
            self.selected_match = Some((index + self.matches.len() - 1) % self.matches.len());
        }
        proof {
            use_type_invariant(&*self);
        }
        self.current_match()
    }

    /// The selected match counted from one, and how many matches there are.
    pub fn match_status(&self) -> (r: Option<(usize, usize)>)
        ensures
            r == match self.selected_view() {
                Some(i) => Some(((i + 1) as usize, self.matches_view().len() as usize)),
                None => None,
            },
    {
        proof {
            use_type_invariant(self);
        }
        match self.selected_match {
            Some(selected) => Some((selected + 1, self.matches.len())),
            None => None,
        }
    }
}

} // verus!

verus! {

/// Moving to the next match stays among the matches.
pub proof fn law_next_in_range(i: int, n: int)
    requires
        0 <= i < n,
    ensures
        0 <= next_index(i, n) < n,
{
    if i + 1 < n {
        vstd::arithmetic::div_mod::lemma_small_mod((i + 1) as nat, n as nat);
    } else {
        vstd::arithmetic::div_mod::lemma_mod_self_0(n);
    }
}

/// Moving to the previous match stays among the matches.
pub proof fn law_previous_in_range(i: int, n: int)
    requires
        0 <= i < n,
    ensures
        0 <= previous_index(i, n) < n,
{
    vstd::arithmetic::div_mod::lemma_mod_pos_bound(i + n - 1, n);
}

/// Moving to the previous match undoes moving to the next one.
pub proof fn law_previous_undoes_next(i: int, n: int)
    requires
        0 <= i < n,
    ensures
        previous_index(next_index(i, n), n) == i,
{
    if i + 1 < n {
        vstd::arithmetic::div_mod::lemma_small_mod((i + 1) as nat, n as nat);
        vstd::arithmetic::div_mod::lemma_mod_add_multiples_vanish(i, n);
        vstd::arithmetic::div_mod::lemma_small_mod(i as nat, n as nat);
    } else {
        vstd::arithmetic::div_mod::lemma_mod_self_0(n);
        vstd::arithmetic::div_mod::lemma_small_mod((n - 1) as nat, n as nat);
    }
}

/// Moving to the next match undoes moving to the previous one.
pub proof fn law_next_undoes_previous(i: int, n: int)
    requires
        0 <= i < n,
    ensures
        next_index(previous_index(i, n), n) == i,
{
    if i > 0 {
        vstd::arithmetic::div_mod::lemma_mod_add_multiples_vanish(i - 1, n);
        vstd::arithmetic::div_mod::lemma_small_mod((i - 1) as nat, n as nat);
        vstd::arithmetic::div_mod::lemma_small_mod(i as nat, n as nat);
    } else {
        vstd::arithmetic::div_mod::lemma_small_mod((n - 1) as nat, n as nat);
        vstd::arithmetic::div_mod::lemma_mod_self_0(n);
    }
}

/// On a popup as every popup is, moving to the previous match undoes moving to the next
/// one, and moving to the next undoes moving to the previous; with no match selected,
/// both leave the selection as it is.
pub proof fn law_popup_previous_undoes_next(p: SearchPopup)
    requires
        p.consistent(),
    ensures
        match_after_previous(match_after_next(p.selected_view(), p.matches_view().len()), p.matches_view().len())
            == p.selected_view(),
        match_after_next(match_after_previous(p.selected_view(), p.matches_view().len()), p.matches_view().len())
            == p.selected_view(),
{
    let n = p.matches_view().len();
    if let Some(i) = p.selected_view() {
        law_next_in_range(i as int, n as int);
        law_previous_in_range(i as int, n as int);
        law_previous_undoes_next(i as int, n as int);
        law_next_undoes_previous(i as int, n as int);
    }
}

/// On a popup as every popup is, with the status `(c, t)` (the selected match counted
/// from one, of `t` matches): `1 <= c <= t`, and moving to the next match gives the status
/// `(c % t + 1, t)`, while moving to the previous one gives `((c + t - 2) % t + 1, t)`.
pub proof fn law_popup_status_moves(p: SearchPopup)
    requires
        p.consistent(),
    ensures
        match p.selected_view() {
            Some(i) => {
                let c = i + 1;
                let t = p.matches_view().len() as int;
                &&& 1 <= c <= t
                &&& match_after_next(p.selected_view(), p.matches_view().len()) == Some((c % t) as usize)
                &&& 1 <= c % t + 1 <= t
                &&& match_after_previous(p.selected_view(), p.matches_view().len()) == Some(((c + t - 2) % t) as usize)
                &&& 1 <= (c + t - 2) % t + 1 <= t
            },
            None => {
                &&& match_after_next(p.selected_view(), p.matches_view().len()) is None
                &&& match_after_previous(p.selected_view(), p.matches_view().len()) is None
            },
        },
{
    let n = p.matches_view().len();
    if let Some(i) = p.selected_view() {
        law_next_in_range(i as int, n as int);
        law_previous_in_range(i as int, n as int);
    }
}

} // verus!
