//! The projects of a registry, by name.
//!
//! The projects are kept in the order of their names (see `order`), so that
//! listing them gives the same sequence whatever the order in which they were
//! created or stored.

use crate::order::lemma_name_lt_irreflexive;
use crate::order::lemma_name_lt_transitive;
use crate::order::name_lt;
use crate::order::order_of;
use crate::order::strictly_sorted;
use crate::order::NameOrder;
use crate::project::Project;
use crate::project::ProjectModel;
use crate::text::texts;
use vstd::prelude::*;

verus! {

#[derive(Debug)]
struct Entry {
    name: String,
    project: Project,
}

/// A map from project names to projects. No name occurs twice.
#[derive(Debug)]
pub struct Projects {
    entries: Vec<Entry>,
}

/// `names` lists the projects of `projects`: it holds the name of each, once,
/// and the names stand in the order of `name_lt`.
pub open spec fn is_listing(names: Seq<Seq<char>>, projects: Map<Seq<char>, ProjectModel>) -> bool {
    &&& strictly_sorted(names)
    &&& forall|name: Seq<char>| names.contains(name) <==> projects.dom().contains(name)
}

spec fn entry_names(entries: Seq<Entry>) -> Seq<Seq<char>> {
    Seq::new(entries.len(), |i: int| entries[i].name@)
}

spec fn entries_map(entries: Seq<Entry>) -> Map<Seq<char>, ProjectModel> {
    Map::new(
        |name: Seq<char>| entry_names(entries).contains(name),
        |name: Seq<char>| entries[entry_names(entries).index_of(name)].project@,
    )
}

/// In a sorted list a name stands at one position only.
proof fn lemma_sorted_position(entries: Seq<Entry>, i: int)
    requires
        strictly_sorted(entry_names(entries)),
        0 <= i < entries.len(),
    ensures
        entry_names(entries).contains(entries[i].name@),
        entry_names(entries).index_of(entries[i].name@) == i,
        entries_map(entries).dom().contains(entries[i].name@),
        entries_map(entries)[entries[i].name@] == entries[i].project@,
{
    let names = entry_names(entries);
    assert(names[i] == entries[i].name@);
    let j = names.index_of(names[i]);
    if j != i {
        lemma_name_lt_irreflexive(names[i]);
        if j < i {
            assert(name_lt(names[j], names[i]));
        } else {
            assert(name_lt(names[i], names[j]));
        }
    }
}

impl View for Projects {
    type V = Map<Seq<char>, ProjectModel>;

    closed spec fn view(&self) -> Map<Seq<char>, ProjectModel> {
        entries_map(self.entries@)
    }
}

impl Projects {
    #[verifier::type_invariant]
    spec fn sorted(&self) -> bool {
        strictly_sorted(entry_names(self.entries@))
    }

    /// No projects.
    pub fn new() -> (projects: Projects)
        ensures
            projects@ == Map::<Seq<char>, ProjectModel>::empty(),
    {
        let projects = Projects { entries: Vec::new() };
        assert(projects@ =~= Map::<Seq<char>, ProjectModel>::empty());
        projects
    }

    /// The position of `name`, if it is there; else the position at which it
    /// would have to be put. Found by halving, as the names stand in order.
    fn locate(&self, name: &str) -> (place: (usize, bool))
        ensures
            place.0 <= self.entries.len(),
            place.1 ==> place.0 < self.entries.len() && self.entries[place.0 as int].name@
                == name@,
            !place.1 ==> !entry_names(self.entries@).contains(name@),
            forall|j: int| 0 <= j < place.0 ==> name_lt(#[trigger] self.entries[j].name@, name@),
            forall|j: int|
                place.0 <= j < self.entries.len() && !(place.1 && j == place.0) ==> name_lt(
                    name@,
                    #[trigger] self.entries[j].name@,
                ),
    {
        proof {
            use_type_invariant(self);
        }
        let ghost names = entry_names(self.entries@);
        let mut low: usize = 0;
        let mut high: usize = self.entries.len();
        while low < high
            invariant
                low <= high <= self.entries.len(),
                names == entry_names(self.entries@),
                strictly_sorted(names),
                forall|j: int| 0 <= j < low ==> name_lt(#[trigger] self.entries[j].name@, name@),
                forall|j: int|
                    high <= j < self.entries.len() ==> name_lt(
                        name@,
                        #[trigger] self.entries[j].name@,
                    ),
            decreases high - low,
        {
            let middle = low + (high - low) / 2;
            match order_of(self.entries[middle].name.as_str(), name) {
                NameOrder::Before => {
                    proof {
                        assert forall|j: int| 0 <= j < middle + 1 implies name_lt(
                            #[trigger] self.entries[j].name@,
                            name@,
                        ) by {
                            if j < middle {
                                assert(name_lt(names[j], names[middle as int]));
                                lemma_name_lt_transitive(names[j], names[middle as int], name@);
                            }
                        }
                    }
                    low = middle + 1;
                },
                NameOrder::Same => {
                    proof {
                        assert forall|j: int| 0 <= j < middle implies name_lt(
                            #[trigger] self.entries[j].name@,
                            name@,
                        ) by {
                            assert(name_lt(names[j], names[middle as int]));
                        }
                        assert forall|j: int| middle < j < self.entries.len() implies name_lt(
                            name@,
                            #[trigger] self.entries[j].name@,
                        ) by {
                            assert(name_lt(names[middle as int], names[j]));
                        }
                    }
                    return (middle, true);
                },
                NameOrder::After => {
                    proof {
                        assert forall|j: int| middle <= j < self.entries.len() implies name_lt(
                            name@,
                            #[trigger] self.entries[j].name@,
                        ) by {
                            if middle < j {
                                assert(name_lt(names[middle as int], names[j]));
                                lemma_name_lt_transitive(name@, names[middle as int], names[j]);
                            }
                        }
                    }
                    high = middle;
                },
            }
        }
        proof {
            assert forall|j: int| 0 <= j < names.len() implies names[j] != name@ by {
                lemma_name_lt_irreflexive(name@);
                if j < low {
                    assert(name_lt(self.entries[j].name@, name@));
                } else {
                    assert(name_lt(name@, self.entries[j].name@));
                }
            }
        }
        (low, false)
    }

    /// Whether a project stands under `name`.
    pub fn contains_key(&self, name: &str) -> (found: bool)
        ensures
            found == self@.dom().contains(name@),
    {
        let place = self.locate(name);
        proof {
            use_type_invariant(self);
            if place.1 {
                lemma_sorted_position(self.entries@, place.0 as int);
            }
        }
        place.1
    }

    /// The project that stands under `name`.
    pub fn get(&self, name: &str) -> (found: Option<&Project>)
        ensures
            match found {
                Some(project) => self@.dom().contains(name@) && self@[name@] == project@,
                None => !self@.dom().contains(name@),
            },
    {
        let place = self.locate(name);
        proof {
            use_type_invariant(self);
            if place.1 {
                lemma_sorted_position(self.entries@, place.0 as int);
            }
        }
        if place.1 {
            Some(&self.entries[place.0].project)
        } else {
            None
        }
    }

    /// Puts `project` under `name`. A project that stood under that name is
    /// replaced, not merged with.
    pub fn insert(&mut self, name: String, project: Project)
        ensures
            final(self)@ == old(self)@.insert(name@, project@),
    {
        proof {
            use_type_invariant(&*self);
        }
        let place = self.locate(name.as_str());
        let ghost before = self.entries@;
        let ghost key = name@;
        let ghost value = project@;
        let mut entries: Vec<Entry> = Vec::new();
        std::mem::swap(&mut entries, &mut self.entries);
        if place.1 {
            entries.set(place.0, Entry { name, project });
        } else {
            entries.insert(place.0, Entry { name, project });
        }
        proof {
            let after = entries@;
            let p = place.0 as int;
            assert(after[p].name@ == key && after[p].project@ == value);
            assert forall|i: int, j: int| 0 <= i < j < after.len() implies name_lt(
                entry_names(after)[i],
                entry_names(after)[j],
            ) by {
                if place.1 {
                    assert(name_lt(entry_names(before)[i], entry_names(before)[j]));
                } else {
                    let bi = if i < p {
                        i
                    } else {
                        i - 1
                    };
                    let bj = if j < p {
                        j
                    } else {
                        j - 1
                    };
                    if i != p && j != p {
                        assert(name_lt(entry_names(before)[bi], entry_names(before)[bj]));
                    } else if i == p {
                        assert(name_lt(key, before[bj].name@));
                    } else {
                        assert(name_lt(before[bi].name@, key));
                    }
                }
            }
            lemma_sorted_position(after, p);
            assert forall|k: Seq<char>|
                entries_map(after).dom().contains(k) <==> entries_map(before).insert(
                    key,
                    value,
                ).dom().contains(k) by {
                if entry_names(after).contains(k) {
                    let i = entry_names(after).index_of(k);
                    if i != p {
                        let bi = if place.1 || i < p {
                            i
                        } else {
                            i - 1
                        };
                        assert(entry_names(before)[bi] == k);
                    }
                }
                if entry_names(before).contains(k) && k != key {
                    let bi = entry_names(before).index_of(k);
                    let i = if place.1 || bi < p {
                        bi
                    } else {
                        bi + 1
                    };
                    assert(entry_names(after)[i] == k);
                }
            }
            assert forall|k: Seq<char>| entries_map(after).dom().contains(k) implies entries_map(
                after,
            )[k] == entries_map(before).insert(key, value)[k] by {
                let i = entry_names(after).index_of(k);
                lemma_sorted_position(after, i);
                if i != p {
                    let bi = if place.1 || i < p {
                        i
                    } else {
                        i - 1
                    };
                    lemma_sorted_position(before, bi);
                    assert(before[bi].name@ == k);
                    if k == key {
                        lemma_name_lt_irreflexive(key);
                        assert(entry_names(after)[i] == entry_names(after)[p]);
                        if i < p {
                            assert(name_lt(entry_names(after)[i], entry_names(after)[p]));
                        } else {
                            assert(name_lt(entry_names(after)[p], entry_names(after)[i]));
                        }
                    }
                }
            }
            assert(entries_map(after) =~= entries_map(before).insert(key, value));
        }
        self.entries = entries;
    }

    /// The names under which projects stand, in the order of `name_lt`.
    pub fn keys(&self) -> (names: Vec<String>)
        ensures
            is_listing(texts(names@), self@),
    {
        proof {
            use_type_invariant(self);
        }
        let mut names: Vec<String> = Vec::new();
        let mut i: usize = 0;
        while i < self.entries.len()
            invariant
                i <= self.entries.len(),
                names.len() == i,
                forall|j: int| 0 <= j < i ==> names[j]@ == self.entries[j].name@,
            decreases self.entries.len() - i,
        {
            names.push(self.entries[i].name.clone());
            i = i + 1;
        }
        assert(texts(names@) =~= entry_names(self.entries@));
        names
    }

    /// Whether there is no project at all.
    pub fn is_empty(&self) -> (empty: bool)
        ensures
            empty == (self@ == Map::<Seq<char>, ProjectModel>::empty()),
    {
        proof {
            use_type_invariant(self);
            if self.entries.len() > 0 {
                lemma_sorted_position(self.entries@, 0);
            } else {
                assert(self@ =~= Map::<Seq<char>, ProjectModel>::empty());
            }
        }
        self.entries.len() == 0
    }
}

/// The smallest name of a non-empty listing stands first in it.
proof fn lemma_listing_first(a: Seq<Seq<char>>, b: Seq<Seq<char>>)
    requires
        strictly_sorted(a),
        strictly_sorted(b),
        forall|name: Seq<char>| a.contains(name) <==> b.contains(name),
        a.len() > 0,
    ensures
        b.len() > 0,
        a[0] == b[0],
{
    assert(a.contains(a[0]));
    assert(b.contains(a[0]));
    let j = choose|j: int| 0 <= j < b.len() && b[j] == a[0];
    assert(b.contains(b[0]));
    let i = choose|i: int| 0 <= i < a.len() && a[i] == b[0];
    if j > 0 && i > 0 {
        assert(name_lt(b[0], b[j]));
        assert(name_lt(a[0], a[i]));
        lemma_name_lt_transitive(a[0], b[0], a[0]);
        lemma_name_lt_irreflexive(a[0]);
    }
}

/// A registry has one listing only.
pub proof fn lemma_listing_unique(
    a: Seq<Seq<char>>,
    b: Seq<Seq<char>>,
    projects: Map<Seq<char>, ProjectModel>,
)
    requires
        is_listing(a, projects),
        is_listing(b, projects),
    ensures
        a == b,
{
    lemma_sorted_same_names(a, b);
}

proof fn lemma_sorted_same_names(a: Seq<Seq<char>>, b: Seq<Seq<char>>)
    requires
        strictly_sorted(a),
        strictly_sorted(b),
        forall|name: Seq<char>| a.contains(name) <==> b.contains(name),
    ensures
        a == b,
    decreases a.len(),
{
    if a.len() == 0 {
        if b.len() > 0 {
            assert(b.contains(b[0]));
        }
        assert(a =~= b);
    } else {
        lemma_listing_first(a, b);
        let ra = a.drop_first();
        let rb = b.drop_first();
        assert forall|name: Seq<char>| ra.contains(name) <==> rb.contains(name) by {
            lemma_name_lt_irreflexive(name);
            if ra.contains(name) {
                let i = choose|i: int| 0 <= i < ra.len() && ra[i] == name;
                assert(a[i + 1] == name);
                assert(name_lt(a[0], a[i + 1]));
                assert(a.contains(name));
                let j = choose|j: int| 0 <= j < b.len() && b[j] == name;
                assert(rb[j - 1] == name);
            }
            if rb.contains(name) {
                let i = choose|i: int| 0 <= i < rb.len() && rb[i] == name;
                assert(b[i + 1] == name);
                assert(name_lt(b[0], b[i + 1]));
                assert(b.contains(name));
                let j = choose|j: int| 0 <= j < a.len() && a[j] == name;
                assert(ra[j - 1] == name);
            }
        }
        assert forall|i: int, j: int| 0 <= i < j < ra.len() implies name_lt(ra[i], ra[j]) by {
            assert(name_lt(a[i + 1], a[j + 1]));
        }
        assert forall|i: int, j: int| 0 <= i < j < rb.len() implies name_lt(rb[i], rb[j]) by {
            assert(name_lt(b[i + 1], b[j + 1]));
        }
        lemma_sorted_same_names(ra, rb);
        assert(a =~= seq![a[0]] + ra);
        assert(b =~= seq![b[0]] + rb);
    }
}

} // verus!
