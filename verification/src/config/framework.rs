//! The frameworks under test, as read from `frameworks.yml`.

use vstd::prelude::*;
use crate::text::string_views;

verus! {

/// One framework under test and how to build and reach it.
#[derive(Debug, Clone, PartialEq, Eq)]
pub struct FrameworkConfig {
    pub name: String,
    pub language: String,
    pub url: String,
    pub image: String,
    pub dockerfile: String,
    pub color: String,
}

/// The available frameworks that a run covers, in their order: those
/// requested, or all of them when none is requested.
pub open spec fn selected_frameworks(available: Seq<Seq<char>>, requested: Seq<Seq<char>>) -> Seq<Seq<char>>
    decreases available.len(),
{
    if available.len() == 0 {
        Seq::empty()
    } else {
        let init = selected_frameworks(available.drop_last(), requested);
        if requested.len() == 0 || requested.contains(available.last()) {
            init.push(available.last())
        } else {
            init
        }
    }
}

/// With no framework requested, a run covers every available framework.
pub proof fn lemma_select_all_when_none_requested(available: Seq<Seq<char>>)
    ensures
        selected_frameworks(available, Seq::empty()) == available,
    decreases available.len(),
{
    if available.len() > 0 {
        lemma_select_all_when_none_requested(available.drop_last());
        assert(available.drop_last().push(available.last()) =~= available);
    }
}

/// A run covers only available frameworks, and, when some are requested,
/// only requested ones.
pub proof fn lemma_selected_are_available_and_requested(available: Seq<Seq<char>>, requested: Seq<Seq<char>>)
    ensures
        forall|k: int|
            0 <= k < selected_frameworks(available, requested).len() ==> {
                &&& available.contains(#[trigger] selected_frameworks(available, requested)[k])
                &&& (requested.len() == 0 || requested.contains(selected_frameworks(available, requested)[k]))
            },
    decreases available.len(),
{
    if available.len() > 0 {
        let init = available.drop_last();
        lemma_selected_are_available_and_requested(init, requested);
        let sel = selected_frameworks(available, requested);
        assert forall|k: int| 0 <= k < sel.len() implies {
            &&& available.contains(#[trigger] sel[k])
            &&& (requested.len() == 0 || requested.contains(sel[k]))
        } by {
            let prev = selected_frameworks(init, requested);
            if k < prev.len() {
                assert(sel[k] == prev[k]);
                let w = choose|w: int| 0 <= w < init.len() && init[w] == prev[k];
                assert(available[w] == init[w]);
            } else {
                assert(sel[k] == available[available.len() - 1]);
            }
        }
    }
}

/// A run covers every available framework that is requested, and every
/// available one when none is requested.
pub proof fn lemma_requested_are_selected(available: Seq<Seq<char>>, requested: Seq<Seq<char>>)
    ensures
        forall|k: int|
            0 <= k < available.len() && (requested.len() == 0 || requested.contains(#[trigger] available[k]))
                ==> selected_frameworks(available, requested).contains(available[k]),
    decreases available.len(),
{
    if available.len() > 0 {
        let init = available.drop_last();
        lemma_requested_are_selected(init, requested);
        let prev = selected_frameworks(init, requested);
        let sel = selected_frameworks(available, requested);
        assert forall|k: int|
            0 <= k < available.len() && (requested.len() == 0 || requested.contains(#[trigger] available[k]))
                implies sel.contains(available[k]) by {
            if k < available.len() - 1 {
                assert(init[k] == available[k]);
                assert(prev.contains(init[k]));
                let w = choose|w: int| 0 <= w < prev.len() && prev[w] == init[k];
                assert(sel[w] == prev[w]);
            } else {
                assert(available[k] == available.last());
                assert(sel[sel.len() - 1] == available.last());
            }
        }
    }
}

/// A run covers exactly the available frameworks that pass the request, in
/// their order: `available` filtered by "none requested, or requested".
pub proof fn lemma_selection_is_filter(available: Seq<Seq<char>>, requested: Seq<Seq<char>>)
    ensures
        selected_frameworks(available, requested) == available.filter(
            |name: Seq<char>| requested.len() == 0 || requested.contains(name),
        ),
    decreases available.len(),
{
    reveal(Seq::filter);
    if available.len() > 0 {
        lemma_selection_is_filter(available.drop_last(), requested);
    }
}

/// Whether `name` is one of `names`.
pub fn contains_name(names: &Vec<String>, name: &String) -> (found: bool)
    ensures
        found == string_views(names@).contains(name@),
{
    let n = names.len();
    let mut i: usize = 0;
    while i < n
        invariant
            n == names@.len(),
            i <= n,
            forall|k: int| 0 <= k < i ==> string_views(names@)[k] != name@,
        decreases n - i,
    {
        if names[i] == *name {
            assert(string_views(names@)[i as int] == name@);
            return true;
        }
        i = i + 1;
    }
    false
}

/// The frameworks among `available` that a run covers: those that
/// `requested` names, or all of them when it names none.
pub fn select_frameworks(available: &Vec<String>, requested: &Vec<String>) -> (selected: Vec<String>)
    ensures
        string_views(selected@) == selected_frameworks(string_views(available@), string_views(requested@)),
        forall|k: int|
            0 <= k < available@.len() && (requested@.len() == 0 || string_views(requested@).contains(
                #[trigger] available@[k]@,
            )) ==> string_views(selected@).contains(available@[k]@),
        string_views(selected@) == string_views(available@).filter(
            |name: Seq<char>| requested@.len() == 0 || string_views(requested@).contains(name),
        ),
        forall|k: int|
            0 <= k < selected@.len() ==> string_views(available@).contains(#[trigger] selected@[k]@) && (
            requested@.len() == 0 || string_views(requested@).contains(selected@[k]@)),
{
    let ghost avail = string_views(available@);
    let ghost req = string_views(requested@);
    let mut selected: Vec<String> = Vec::new();
    let n = available.len();
    let mut i: usize = 0;
    assert(avail.take(0) =~= Seq::<Seq<char>>::empty());
    while i < n
        invariant
            n == available@.len(),
            avail == string_views(available@),
            req == string_views(requested@),
            i <= n,
            string_views(selected@) == selected_frameworks(avail.take(i as int), req),
        decreases n - i,
    {
        assert(avail.take(i + 1).drop_last() =~= avail.take(i as int));
        assert(avail.take(i + 1).last() == available@[i as int]@);
        if requested.len() == 0 || contains_name(requested, &available[i]) {
            let name = available[i].clone();
            selected.push(name);
            assert(string_views(selected@) =~= selected_frameworks(avail.take(i as int), req).push(available@[i as int]@));
        }
        i = i + 1;
    }
    assert(avail.take(n as int) =~= avail);
    proof {
        lemma_requested_are_selected(avail, req);
        lemma_selection_is_filter(avail, req);
        assert(req.len() == requested@.len());
        lemma_selected_are_available_and_requested(avail, req);
        assert forall|k: int|
            0 <= k < available@.len() && (requested@.len() == 0 || req.contains(#[trigger] available@[k]@))
                implies string_views(selected@).contains(available@[k]@) by {
            assert(avail[k] == available@[k]@);
        }
        assert forall|k: int| 0 <= k < selected@.len() implies avail.contains(#[trigger] selected@[k]@) && (
            requested@.len() == 0 || req.contains(selected@[k]@)) by {
            assert(string_views(selected@)[k] == selected@[k]@);
        }
    }
    selected
}

} // verus!
