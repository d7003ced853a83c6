use vstd::prelude::*;

use crate::errors::Error;

verus! {

/// One profile in a project's registry: a user-facing label, the opaque
/// storage token of the profile body, and the content digest taken at
/// creation time.
#[derive(Debug)]
pub struct Entry {
    pub name: String,
    pub hash: String,
    pub id: String,
}

/// Mathematical model of an [`Entry`]: its three strings as character
/// sequences.
pub struct EntryModel {
    pub name: Seq<char>,
    pub hash: Seq<char>,
    pub id: Seq<char>,
}

impl View for Entry {
    type V = EntryModel;

    open spec fn view(&self) -> EntryModel {
        EntryModel { name: self.name@, hash: self.hash@, id: self.id@ }
    }
}

/// The per-project registry: the ordered profile table and the name of the
/// currently active profile, if any.
#[derive(Debug)]
pub struct Project {
    pub entries: Vec<Entry>,
    pub current_profile: Option<String>,
}

/// Mathematical model of a [`Project`].
pub struct ProjectModel {
    pub entries: Seq<EntryModel>,
    pub current_profile: Option<Seq<char>>,
}

/// The model of a sequence of registry entries.
pub open spec fn entries_model(entries: Seq<Entry>) -> Seq<EntryModel> {
    entries.map_values(|e: Entry| e@)
}

impl View for Project {
    type V = ProjectModel;

    open spec fn view(&self) -> ProjectModel {
        ProjectModel {
            entries: entries_model(self.entries@),
            current_profile: match self.current_profile {
                Option::Some(s) => Option::Some(s@),
                Option::None => Option::None,
            },
        }
    }
}

/// True iff some entry of `entries` bears `name` (case-sensitive exact match).
pub open spec fn contains_name(entries: Seq<EntryModel>, name: Seq<char>) -> bool {
    exists|i: int| 0 <= i < entries.len() && entries[i].name == name
}

/// True iff some entry of `entries` carries the storage token `id`.
pub open spec fn contains_id(entries: Seq<EntryModel>, id: Seq<char>) -> bool {
    exists|i: int| 0 <= i < entries.len() && entries[i].id == id
}

/// No two entries of `entries` share a name.
pub open spec fn names_distinct_in(entries: Seq<EntryModel>) -> bool {
    forall|i: int, j: int|
        #![trigger entries[i].name, entries[j].name]
        0 <= i < entries.len() && 0 <= j < entries.len() && i != j ==> entries[i].name
            != entries[j].name
}

/// No two entries of `entries` share a storage token.
pub open spec fn ids_distinct_in(entries: Seq<EntryModel>) -> bool {
    forall|i: int, j: int|
        #![trigger entries[i].id, entries[j].id]
        0 <= i < entries.len() && 0 <= j < entries.len() && i != j ==> entries[i].id
            != entries[j].id
}

impl ProjectModel {
    /// No two entries share a name.
    pub open spec fn names_distinct(self) -> bool {
        names_distinct_in(self.entries)
    }

    /// No two entries share a storage token.
    pub open spec fn ids_distinct(self) -> bool {
        ids_distinct_in(self.entries)
    }

    /// The active-profile pointer, when present, names an existing entry.
    pub open spec fn current_consistent(self) -> bool {
        match self.current_profile {
            Option::Some(n) => contains_name(self.entries, n),
            Option::None => true,
        }
    }

    /// The registry invariant: unique names, unique storage tokens, and a
    /// consistent active-profile pointer.
    pub open spec fn wf(self) -> bool {
        self.names_distinct() && self.ids_distinct() && self.current_consistent()
    }

    /// The registry of a freshly initialized project: no entries, no active
    /// profile.
    pub open spec fn empty() -> ProjectModel {
        ProjectModel { entries: Seq::empty(), current_profile: Option::None }
    }
}

impl Project {
    /// Builds the registry of a freshly initialized project.
    pub fn empty() -> (p: Project)
        ensures
            p@ == ProjectModel::empty(),
            p@.wf(),
    {
        let p = Project { entries: Vec::new(), current_profile: Option::None };
        proof {
            assert(p@.entries =~= Seq::<EntryModel>::empty());
            assert(p@ == ProjectModel::empty());
        }
        p
    }
}

/// True iff some entry of `entries` bears `name`.
pub fn check_if_profile_exists(entries: &Vec<Entry>, name: &String) -> (r: bool)
    ensures
        r == contains_name(entries_model(entries@), name@),
{
    let mut i: usize = 0;
    while i < entries.len()
        invariant
            i <= entries.len(),
            forall|k: int| 0 <= k < i ==> entries_model(entries@)[k].name != name@,
        decreases entries.len() - i,
    {
        if entries[i].name == *name {
            proof {
                assert(entries_model(entries@)[i as int].name == name@);
            }
            return true;
        }
        i += 1;
    }
    false
}

/// True iff some entry of `entries` carries the storage token `id`.
pub fn check_if_id_exists(entries: &Vec<Entry>, id: &String) -> (r: bool)
    ensures
        r == contains_id(entries_model(entries@), id@),
{
    let mut i: usize = 0;
    while i < entries.len()
        invariant
            i <= entries.len(),
            forall|k: int| 0 <= k < i ==> entries_model(entries@)[k].id != id@,
        decreases entries.len() - i,
    {
        if entries[i].id == *id {
            proof {
                assert(entries_model(entries@)[i as int].id == id@);
            }
            return true;
        }
        i += 1;
    }
    false
}

/// True iff no two entries of `entries` share a name.
pub fn check_names_distinct(entries: &Vec<Entry>) -> (r: bool)
    ensures
        r == names_distinct_in(entries_model(entries@)),
{
    let ghost es = entries_model(entries@);
    let mut i: usize = 0;
    while i < entries.len()
        invariant
            i <= entries.len(),
            es == entries_model(entries@),
            forall|k: int, l: int|
                #![trigger es[k].name, es[l].name]
                0 <= k < l < entries.len() && k < i ==> es[k].name != es[l].name,
        decreases entries.len() - i,
    {
        let mut j: usize = i + 1;
        while j < entries.len()
            invariant
                i < entries.len(),
                j <= entries.len(),
                i + 1 <= j,
                es == entries_model(entries@),
                forall|l: int| #![trigger es[l].name] i < l < j ==> es[i as int].name != es[l].name,
            decreases entries.len() - j,
        {
            if entries[i].name == entries[j].name {
                proof {
                    assert(es[i as int].name == es[j as int].name);
                    assert(!names_distinct_in(es));
                }
                return false;
            }
            j += 1;
        }
        i += 1;
    }
    proof {
        assert forall|k: int, l: int|
            0 <= k < es.len() && 0 <= l < es.len() && k != l implies #[trigger] es[k].name
            != #[trigger] es[l].name by {
            if k < l {
                assert(es[k].name != es[l].name);
            } else {
                assert(es[l].name != es[k].name);
            }
        }
    }
    true
}

/// True iff no two entries of `entries` share a storage token.
pub fn check_ids_distinct(entries: &Vec<Entry>) -> (r: bool)
    ensures
        r == ids_distinct_in(entries_model(entries@)),
{
    let ghost es = entries_model(entries@);
    let mut i: usize = 0;
    while i < entries.len()
        invariant
            i <= entries.len(),
            es == entries_model(entries@),
            forall|k: int, l: int|
                #![trigger es[k].id, es[l].id]
                0 <= k < l < entries.len() && k < i ==> es[k].id != es[l].id,
        decreases entries.len() - i,
    {
        let mut j: usize = i + 1;
        while j < entries.len()
            invariant
                i < entries.len(),
                j <= entries.len(),
                i + 1 <= j,
                es == entries_model(entries@),
                forall|l: int| #![trigger es[l].id] i < l < j ==> es[i as int].id != es[l].id,
            decreases entries.len() - j,
        {
            if entries[i].id == entries[j].id {
                proof {
                    assert(es[i as int].id == es[j as int].id);
                    assert(!ids_distinct_in(es));
                }
                return false;
            }
            j += 1;
        }
        i += 1;
    }
    proof {
        assert forall|k: int, l: int|
            0 <= k < es.len() && 0 <= l < es.len() && k != l implies #[trigger] es[k].id
            != #[trigger] es[l].id by {
            if k < l {
                assert(es[k].id != es[l].id);
            } else {
                assert(es[l].id != es[k].id);
            }
        }
    }
    true
}

/// True iff `project` satisfies the registry invariant.
pub fn is_wf(project: &Project) -> (r: bool)
    ensures
        r == project@.wf(),
{
    if !check_names_distinct(&project.entries) {
        return false;
    }
    if !check_ids_distinct(&project.entries) {
        return false;
    }
    match &project.current_profile {
        Option::None => true,
        Option::Some(n) => check_if_profile_exists(&project.entries, n),
    }
}

/// Returns the entry of `project` named `name`, or `NotFound` if no entry
/// bears that name.
pub fn select_profile<'a>(project: &'a Project, name: &String) -> (r: Result<&'a Entry, Error>)
    ensures
        match r {
            Result::Ok(e) => {
                &&& contains_name(project@.entries, name@)
                &&& e@.name == name@
                &&& project@.entries.contains(e@)
            },
            Result::Err(err) => {
                &&& err == Error::NotFound
                &&& !contains_name(project@.entries, name@)
            },
        },
{
    let mut i: usize = 0;
    while i < project.entries.len()
        invariant
            i <= project.entries.len(),
            forall|k: int| 0 <= k < i ==> project@.entries[k].name != name@,
        decreases project.entries.len() - i,
    {
        let e = &project.entries[i];
        if e.name == *name {
            proof {
                assert(project@.entries[i as int] == e@);
            }
            return Ok(e);
        }
        i += 1;
    }
    Err(Error::NotFound)
}

/// Marks the entry named `name` as the active profile, or fails with
/// `NotFound` (and changes nothing) when no entry bears that name — so the
/// active pointer can never dangle.
pub fn set_current(project: &mut Project, name: &String) -> (r: Result<(), Error>)
    ensures
        match r {
            Result::Ok(_) => {
                &&& contains_name(old(project)@.entries, name@)
                &&& final(project)@.entries == old(project)@.entries
                &&& final(project)@.current_profile == Option::Some(name@)
                &&& old(project)@.names_distinct() && old(project)@.ids_distinct()
                    ==> final(project)@.wf()
            },
            Result::Err(e) => {
                &&& e == Error::NotFound
                &&& !contains_name(old(project)@.entries, name@)
                &&& *final(project) == *old(project)
            },
        },
{
    if check_if_profile_exists(&project.entries, name) {
        project.current_profile = Option::Some(name.clone());
        Ok(())
    } else {
        Err(Error::NotFound)
    }
}

/// Appending an entry with a fresh name and a fresh token preserves both
/// uniqueness invariants.
pub proof fn lemma_push_preserves_distinct(es: Seq<EntryModel>, e: EntryModel)
    requires
        names_distinct_in(es),
        ids_distinct_in(es),
        !contains_name(es, e.name),
        !contains_id(es, e.id),
    ensures
        names_distinct_in(es.push(e)),
        ids_distinct_in(es.push(e)),
{
    let ns = es.push(e);
    assert forall|i: int, j: int|
        0 <= i < ns.len() && 0 <= j < ns.len() && i != j implies #[trigger] ns[i].name
        != #[trigger] ns[j].name by {
        if i < es.len() && j < es.len() {
            assert(es[i].name != es[j].name);
        } else if j == es.len() && i < es.len() {
            if ns[i].name == ns[j].name {
                assert(es[i].name == e.name);
                assert(contains_name(es, e.name));
            }
        } else if i == es.len() && j < es.len() {
            if ns[i].name == ns[j].name {
                assert(es[j].name == e.name);
                assert(contains_name(es, e.name));
            }
        }
    }
    assert forall|i: int, j: int|
        0 <= i < ns.len() && 0 <= j < ns.len() && i != j implies #[trigger] ns[i].id
        != #[trigger] ns[j].id by {
        if i < es.len() && j < es.len() {
            assert(es[i].id != es[j].id);
        } else if j == es.len() && i < es.len() {
            if ns[i].id == ns[j].id {
                assert(es[i].id == e.id);
                assert(contains_id(es, e.id));
            }
        } else if i == es.len() && j < es.len() {
            if ns[i].id == ns[j].id {
                assert(es[j].id == e.id);
                assert(contains_id(es, e.id));
            }
        }
    }
}

/// An entry present before an append is still present after it.
pub proof fn lemma_contains_name_push(es: Seq<EntryModel>, e: EntryModel, n: Seq<char>)
    requires
        contains_name(es, n),
    ensures
        contains_name(es.push(e), n),
{
    let i = choose|i: int| 0 <= i < es.len() && es[i].name == n;
    assert(es.push(e)[i].name == n);
}

/// Removing an entry preserves both uniqueness invariants.
pub proof fn lemma_remove_preserves_distinct(es: Seq<EntryModel>, r: int)
    requires
        0 <= r < es.len(),
        names_distinct_in(es),
        ids_distinct_in(es),
    ensures
        names_distinct_in(es.remove(r)),
        ids_distinct_in(es.remove(r)),
{
    let ns = es.remove(r);
    assert forall|i: int, j: int|
        0 <= i < ns.len() && 0 <= j < ns.len() && i != j implies #[trigger] ns[i].name
        != #[trigger] ns[j].name by {
        let i0 = if i < r { i } else { i + 1 };
        let j0 = if j < r { j } else { j + 1 };
        assert(ns[i] == es[i0]);
        assert(ns[j] == es[j0]);
        assert(es[i0].name != es[j0].name);
    }
    assert forall|i: int, j: int|
        0 <= i < ns.len() && 0 <= j < ns.len() && i != j implies #[trigger] ns[i].id
        != #[trigger] ns[j].id by {
        let i0 = if i < r { i } else { i + 1 };
        let j0 = if j < r { j } else { j + 1 };
        assert(ns[i] == es[i0]);
        assert(ns[j] == es[j0]);
        assert(es[i0].id != es[j0].id);
    }
}

/// An entry whose name is not the removed one survives a removal.
pub proof fn lemma_contains_name_remove(es: Seq<EntryModel>, r: int, n: Seq<char>)
    requires
        0 <= r < es.len(),
        contains_name(es, n),
        es[r].name != n,
    ensures
        contains_name(es.remove(r), n),
{
    let i = choose|i: int| 0 <= i < es.len() && es[i].name == n;
    if i < r {
        assert(es.remove(r)[i].name == n);
    } else {
        assert(es.remove(r)[i - 1].name == n);
    }
}

/// The project identifier recorded by a marker file whose raw text is `raw`:
/// the text with one trailing newline, if any, removed.
pub open spec fn marker_id(raw: Seq<char>) -> Seq<char> {
    if raw.len() > 0 && raw[raw.len() - 1] == '\n' {
        raw.drop_last()
    } else {
        raw
    }
}

/// Resolves the project identifier from the raw text of the marker file in
/// the working directory (`None` when the marker is absent or unreadable).
/// Readers tolerate the presence or absence of one trailing newline; a marker
/// that is empty after that resolves to no identifier.
pub fn get_project_id(raw: &Option<String>) -> (r: Option<String>)
    ensures
        match r {
            Option::Some(id) => {
                &&& raw is Some
                &&& id@ == marker_id(raw->0@)
                &&& id@.len() > 0
            },
            Option::None => match raw {
                Option::Some(s) => marker_id(s@).len() == 0,
                Option::None => true,
            },
        },
{
    match raw {
        Option::None => None,
        Option::Some(s) => {
            let n = s.as_str().unicode_len();
            if n == 0 {
                None
            } else {
                let last = s.as_str().get_char(n - 1);
                if last == '\n' {
                    if n == 1 {
                        None
                    } else {
                        let t = s.as_str().substring_char(0, n - 1);
                        proof {
                            assert(t@ =~= marker_id(s@));
                        }
                        Some(t.to_owned())
                    }
                } else {
                    Some(s.clone())
                }
            }
        },
    }
}

} // verus!
