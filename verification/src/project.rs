//! A project: its profile names and the positions that were last confirmed.

use crate::error::RegistryError;
use crate::text::lemma_texts_push;
use crate::text::texts;
use vstd::prelude::*;

verus! {

/// A list of profile names, and the positions in that list that were checked
/// when a selection was last confirmed. A name may occur more than once. The
/// positions are not bound to the list: the list can be replaced after they
/// were recorded, so they are filtered before they seed a picker.
#[derive(Debug)]
pub struct Project {
    pub profiles: Vec<String>,
    pub previously_selected: Vec<usize>,
}

/// What a `Project` holds, as mathematical values.
pub struct ProjectModel {
    pub profiles: Seq<Seq<char>>,
    pub previously_selected: Seq<int>,
}

/// The numbers of `v` as integers, in order.
pub open spec fn positions(v: Seq<usize>) -> Seq<int> {
    Seq::new(v.len(), |i: int| v[i] as int)
}

impl View for Project {
    type V = ProjectModel;

    open spec fn view(&self) -> ProjectModel {
        ProjectModel {
            profiles: texts(self.profiles@),
            previously_selected: positions(self.previously_selected@),
        }
    }
}

/// The project without profiles and without a selection.
pub open spec fn empty_project() -> ProjectModel {
    ProjectModel { profiles: Seq::empty(), previously_selected: Seq::empty() }
}

/// The positions below `k` at which `profiles` holds one of the `confirmed`
/// names, in increasing order.
pub open spec fn confirmed_below(
    profiles: Seq<Seq<char>>,
    confirmed: Seq<Seq<char>>,
    k: nat,
) -> Seq<int> {
    Seq::new(k, |i: int| i).filter(|i: int| confirmed.contains(profiles[i]))
}

/// All positions at which `profiles` holds one of the `confirmed` names, in
/// increasing order.
pub open spec fn confirmed_positions(
    profiles: Seq<Seq<char>>,
    confirmed: Seq<Seq<char>>,
) -> Seq<int> {
    confirmed_below(profiles, confirmed, profiles.len())
}

impl ProjectModel {
    /// The recorded positions that lie inside the profile list, in the order
    /// in which they were recorded: what a picker is seeded with.
    pub open spec fn defaults(self) -> Seq<int> {
        self.previously_selected.filter(|i: int| 0 <= i < self.profiles.len())
    }

    /// The same profiles, with the selection replaced by the positions of the
    /// `confirmed` names.
    pub open spec fn reconciled(self, confirmed: Seq<Seq<char>>) -> ProjectModel {
        ProjectModel {
            profiles: self.profiles,
            previously_selected: confirmed_positions(self.profiles, confirmed),
        }
    }

    /// What a run of the picker leads to: no run without profiles, no change
    /// when the picker was cancelled (`None`), else the reconciled project.
    pub open spec fn selection_outcome(self, answer: Option<Seq<Seq<char>>>) -> Result<
        ProjectModel,
        RegistryError,
    > {
        if self.profiles.len() == 0 {
            Err(RegistryError::EmptyProfileList)
        } else {
            match answer {
                None => Err(RegistryError::PickerCancelled),
                Some(confirmed) => Ok(self.reconciled(confirmed)),
            }
        }
    }
}

/// The view of an answer of the picker.
pub open spec fn answer_texts(answer: Option<Vec<String>>) -> Option<Seq<Seq<char>>> {
    match answer {
        None => None,
        Some(names) => Some(texts(names@)),
    }
}

/// Appending a number to a list appends it to the list's positions.
pub proof fn lemma_positions_push(v: Seq<usize>, n: usize)
    ensures
        positions(v.push(n)) == positions(v).push(n as int),
{
    assert(positions(v.push(n)) =~= positions(v).push(n as int));
}

/// A new project: no profiles, no selection.
pub fn create_new_project() -> (project: Project)
    ensures
        project@ == empty_project(),
{
    let project = Project { profiles: Vec::new(), previously_selected: Vec::new() };
    assert(project@.profiles =~= Seq::empty());
    assert(project@.previously_selected =~= Seq::empty());
    project
}

/// A copy of `names`.
pub fn clone_names(names: &Vec<String>) -> (copy: Vec<String>)
    ensures
        texts(copy@) == texts(names@),
{
    let mut copy: Vec<String> = Vec::new();
    let mut i: usize = 0;
    while i < names.len()
        invariant
            i <= names.len(),
            texts(copy@) == texts(names@.take(i as int)),
        decreases names.len() - i,
    {
        proof {
            lemma_texts_push(copy@, names@[i as int]);
            lemma_texts_push(names@.take(i as int), names@[i as int]);
            assert(names@.take(i + 1) =~= names@.take(i as int).push(names@[i as int]));
        }
        copy.push(names[i].clone());
        i = i + 1;
    }
    assert(names@.take(i as int) =~= names@);
    copy
}

/// Whether `name` is one of `names`.
pub fn contains_name(names: &Vec<String>, name: &str) -> (found: bool)
    ensures
        found == texts(names@).contains(name@),
{
    let mut i: usize = 0;
    while i < names.len()
        invariant
            i <= names.len(),
            forall|j: int| 0 <= j < i ==> texts(names@)[j] != name@,
        decreases names.len() - i,
    {
        if crate::order::order_of(names[i].as_str(), name) == crate::order::NameOrder::Same {
            assert(texts(names@)[i as int] == name@);
            return true;
        }
        i = i + 1;
    }
    false
}

/// Filtering a sequence with one more element: the element is kept at the
/// end, or left out.
pub proof fn lemma_filter_push<A>(s: Seq<A>, x: A, pred: spec_fn(A) -> bool)
    ensures
        s.push(x).filter(pred) == if pred(x) {
            s.filter(pred).push(x)
        } else {
            s.filter(pred)
        },
{
    reveal(Seq::filter);
    assert(s.push(x).drop_last() =~= s);
}

/// One more position is examined: it joins the confirmed positions exactly
/// if its name is among the confirmed names.
pub proof fn lemma_confirmed_below_step(
    profiles: Seq<Seq<char>>,
    confirmed: Seq<Seq<char>>,
    k: nat,
)
    ensures
        confirmed_below(profiles, confirmed, k + 1) == if confirmed.contains(profiles[k as int]) {
            confirmed_below(profiles, confirmed, k).push(k as int)
        } else {
            confirmed_below(profiles, confirmed, k)
        },
{
    let upto = Seq::new(k, |i: int| i);
    assert(Seq::new(k + 1, |i: int| i) =~= upto.push(k as int));
    lemma_filter_push(upto, k as int, |i: int| confirmed.contains(profiles[i]));
}

/// The confirmed positions below `k` are exactly the positions below `k`
/// whose name is among the confirmed names, each once, in increasing order.
pub proof fn lemma_confirmed_below(profiles: Seq<Seq<char>>, confirmed: Seq<Seq<char>>, k: nat)
    ensures
        forall|i: int|
            confirmed_below(profiles, confirmed, k).contains(i) <==> (0 <= i < k
                && confirmed.contains(#[trigger] profiles[i])),
        forall|a: int, b: int|
            0 <= a < b < confirmed_below(profiles, confirmed, k).len() ==> confirmed_below(
                profiles,
                confirmed,
                k,
            )[a] < confirmed_below(profiles, confirmed, k)[b],
    decreases k,
{
    let r = confirmed_below(profiles, confirmed, k);
    if k == 0 {
        reveal(Seq::filter);
        assert(Seq::new(0, |i: int| i) =~= Seq::<int>::empty());
        assert(r.len() == 0);
    } else {
        let j = (k - 1) as nat;
        let front = confirmed_below(profiles, confirmed, j);
        lemma_confirmed_below(profiles, confirmed, j);
        lemma_confirmed_below_step(profiles, confirmed, j);
        if confirmed.contains(profiles[j as int]) {
            assert(r == front.push(j as int));
            assert forall|i: int| r.contains(i) <==> (0 <= i < k && confirmed.contains(
                #[trigger] profiles[i],
            )) by {
                if r.contains(i) {
                    let w = choose|w: int| 0 <= w < r.len() && r[w] == i;
                    if w < front.len() {
                        assert(front.contains(i));
                    }
                }
                if 0 <= i < k && confirmed.contains(profiles[i]) {
                    if i == j {
                        assert(r[front.len() as int] == i);
                    } else {
                        assert(front.contains(i));
                        let w = choose|w: int| 0 <= w < front.len() && front[w] == i;
                        assert(r[w] == i);
                    }
                }
            }
            assert forall|a: int, b: int| 0 <= a < b < r.len() implies r[a] < r[b] by {
                if b == front.len() {
                    assert(front.contains(front[a]));
                }
            }
        } else {
            assert(r == front);
        }
    }
}

/// After a confirmed selection the recorded positions are exactly the
/// positions whose name was confirmed, each once, in increasing order.
pub proof fn lemma_reconciled_selection(project: ProjectModel, confirmed: Seq<Seq<char>>)
    ensures
        project.reconciled(confirmed).profiles == project.profiles,
        forall|i: int|
            project.reconciled(confirmed).previously_selected.contains(i) <==> (0 <= i
                < project.profiles.len() && confirmed.contains(#[trigger] project.profiles[i])),
        forall|a: int, b: int|
            0 <= a < b < project.reconciled(confirmed).previously_selected.len()
                ==> project.reconciled(confirmed).previously_selected[a] < project.reconciled(
                confirmed,
            ).previously_selected[b],
{
    lemma_confirmed_below(project.profiles, confirmed, project.profiles.len());
}

/// Confirming the same names a second time changes nothing.
pub proof fn lemma_reconciled_idempotent(project: ProjectModel, confirmed: Seq<Seq<char>>)
    ensures
        project.reconciled(confirmed).reconciled(confirmed) == project.reconciled(confirmed),
{
}

/// The names that `profiles` holds at the positions `at`, in that order.
pub open spec fn names_at(profiles: Seq<Seq<char>>, at: Seq<int>) -> Seq<Seq<char>> {
    Seq::new(at.len(), |j: int| profiles[at[j]])
}

/// Two lists of confirmed names that agree on every profile below `k` lead
/// to the same positions below `k`.
pub proof fn lemma_confirmed_below_agree(
    profiles: Seq<Seq<char>>,
    first: Seq<Seq<char>>,
    second: Seq<Seq<char>>,
    k: nat,
)
    requires
        forall|i: int| 0 <= i < k ==> first.contains(#[trigger] profiles[i]) == second.contains(profiles[i]),
    ensures
        confirmed_below(profiles, first, k) == confirmed_below(profiles, second, k),
    decreases k,
{
    if k == 0 {
        reveal(Seq::filter);
        assert(Seq::new(0, |i: int| i) =~= Seq::<int>::empty());
    } else {
        let j = (k - 1) as nat;
        lemma_confirmed_below_agree(profiles, first, second, j);
        lemma_confirmed_below_step(profiles, first, j);
        lemma_confirmed_below_step(profiles, second, j);
        assert(first.contains(profiles[j as int]) == second.contains(profiles[j as int]));
    }
}

/// A confirmed selection is a fixed point: all its positions lie inside the
/// list, so they all seed the next picker, and confirming what is then
/// checked, unchanged, records the same positions again.
pub proof fn lemma_reconciled_fixed_point(project: ProjectModel, confirmed: Seq<Seq<char>>)
    ensures
        project.reconciled(confirmed).defaults() == project.reconciled(
            confirmed,
        ).previously_selected,
        project.reconciled(confirmed).reconciled(
            names_at(project.profiles, project.reconciled(confirmed).defaults()),
        ) == project.reconciled(confirmed),
{
    let profiles = project.profiles;
    let after = project.reconciled(confirmed);
    let chosen = after.previously_selected;
    lemma_confirmed_below(profiles, confirmed, profiles.len());
    assert forall|w: int| 0 <= w < chosen.len() implies 0 <= #[trigger] chosen[w] < profiles.len()
        && confirmed.contains(profiles[chosen[w]]) by {
        assert(chosen.contains(chosen[w]));
        let i = chosen[w];
        assert(chosen.contains(i) <==> (0 <= i < profiles.len() && confirmed.contains(
            profiles[i],
        )));
    }
    lemma_filter_all(chosen, |i: int| 0 <= i < after.profiles.len());
    let again = names_at(profiles, chosen);
    assert forall|i: int| 0 <= i < profiles.len() implies again.contains(#[trigger] profiles[i])
        == confirmed.contains(profiles[i]) by {
        if confirmed.contains(profiles[i]) {
            assert(chosen.contains(i));
            let w = choose|w: int| 0 <= w < chosen.len() && chosen[w] == i;
            assert(again[w] == profiles[i]);
        }
        if again.contains(profiles[i]) {
            let w = choose|w: int| 0 <= w < again.len() && again[w] == profiles[i];
            assert(confirmed.contains(profiles[chosen[w]]));
        }
    }
    lemma_confirmed_below_agree(profiles, again, confirmed, profiles.len());
}

/// A filter that every element passes keeps the sequence as it is.
pub proof fn lemma_filter_all<A>(s: Seq<A>, pred: spec_fn(A) -> bool)
    requires
        forall|i: int| 0 <= i < s.len() ==> pred(#[trigger] s[i]),
    ensures
        s.filter(pred) == s,
    decreases s.len(),
{
    reveal(Seq::filter);
    if s.len() > 0 {
        lemma_filter_all(s.drop_last(), pred);
        assert(s.drop_last().push(s.last()) =~= s);
    }
}

impl Project {
    /// The recorded positions that lie inside the profile list: what the
    /// picker is seeded with. A position outside the list is left out.
    pub fn valid_defaults(&self) -> (defaults: Vec<usize>)
        ensures
            positions(defaults@) == self@.defaults(),
    {
        let mut defaults: Vec<usize> = Vec::new();
        let mut i: usize = 0;
        let ghost inside = |p: int| 0 <= p < self@.profiles.len();
        proof {
            reveal(Seq::filter);
            assert(positions(self.previously_selected@.take(0)) =~= Seq::<int>::empty());
            assert(positions(defaults@) =~= Seq::<int>::empty());
        }
        while i < self.previously_selected.len()
            invariant
                i <= self.previously_selected.len(),
                inside == |p: int| 0 <= p < self@.profiles.len(),
                positions(defaults@) == positions(self.previously_selected@.take(i as int)).filter(
                    inside,
                ),
            decreases self.previously_selected.len() - i,
        {
            let position = self.previously_selected[i];
            proof {
                let seen = self.previously_selected@.take(i as int);
                assert(self.previously_selected@.take(i + 1) =~= seen.push(position));
                lemma_positions_push(seen, position);
                lemma_filter_push(positions(seen), position as int, inside);
                lemma_positions_push(defaults@, position);
            }
            if position < self.profiles.len() {
                defaults.push(position);
            }
            i = i + 1;
        }
        assert(self.previously_selected@.take(i as int) =~= self.previously_selected@);
        defaults
    }
}

/// Settles a run of the picker on `selected_project`. `answer` is what the
/// picker gave: the names that were left checked, or `None` when the user
/// left it without confirming. Without profiles there is nothing to pick
/// from; otherwise a confirmed answer gives the project with the same
/// profiles and, as its selection, every position that holds a confirmed name.
pub fn present_profile_selection(selected_project: &Project, answer: Option<Vec<String>>) -> (result:
    Result<Project, RegistryError>)
    ensures
        match result {
            Ok(project) => selected_project@.selection_outcome(answer_texts(answer)) == Ok::<
                ProjectModel,
                RegistryError,
            >(project@),
            Err(error) => selected_project@.selection_outcome(answer_texts(answer)) == Err::<
                ProjectModel,
                RegistryError,
            >(error),
        },
{
    if selected_project.profiles.len() == 0 {
        return Err(RegistryError::EmptyProfileList);
    }
    let confirmed = match answer {
        None => {
            return Err(RegistryError::PickerCancelled);
        },
        Some(names) => names,
    };
    let mut indexes: Vec<usize> = Vec::new();
    let mut i: usize = 0;
    proof {
        lemma_confirmed_below(selected_project@.profiles, texts(confirmed@), 0);
        assert(confirmed_below(selected_project@.profiles, texts(confirmed@), 0).len() == 0) by {
            reveal(Seq::filter);
            assert(Seq::new(0, |i: int| i) =~= Seq::<int>::empty());
        }
        assert(positions(indexes@) =~= Seq::<int>::empty());
    }
    while i < selected_project.profiles.len()
        invariant
            i <= selected_project.profiles.len(),
            positions(indexes@) == confirmed_below(
                selected_project@.profiles,
                texts(confirmed@),
                i as nat,
            ),
        decreases selected_project.profiles.len() - i,
    {
        proof {
            lemma_confirmed_below_step(selected_project@.profiles, texts(confirmed@), i as nat);
            lemma_positions_push(indexes@, i);
        }
        if contains_name(&confirmed, selected_project.profiles[i].as_str()) {
            indexes.push(i);
        }
        i = i + 1;
    }
    let profiles = clone_names(&selected_project.profiles);
    Ok(Project { profiles, previously_selected: indexes })
}

} // verus!
