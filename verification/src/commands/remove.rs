use vstd::prelude::*;

use crate::common::{
    contains_name, lemma_contains_name_remove, lemma_remove_preserves_distinct,
    Project, ProjectModel,
};
use crate::errors::Error;

verus! {

/// Arguments of the remove command: the profile to delete.
#[derive(Debug, PartialEq)]
pub struct RemoveCommand {
    pub name: String,
}

/// How a registry after a removal relates to the one before it: some entry
/// bearing `name` is gone, the others keep their order, and an active
/// pointer at `name` is cleared in the very same step — never one without
/// the other.
pub open spec fn removed_model(before: ProjectModel, after: ProjectModel, name: Seq<char>) -> bool {
    &&& exists|i: int|
        0 <= i < before.entries.len() && (#[trigger] before.entries[i]).name == name
            && after.entries == before.entries.remove(i)
    &&& after.current_profile == if before.current_profile == Option::Some(name) {
        Option::<Seq<char>>::None
    } else {
        before.current_profile
    }
}

/// Deletes the entry named `name` from the registry and, when that profile
/// was the active one, clears the active pointer together with it. A name
/// not present fails with `NotFound` and changes nothing.
pub fn remove_profile(project: &mut Project, name: &String) -> (r: Result<(), Error>)
    ensures
        match r {
            Result::Ok(_) => removed_model(old(project)@, final(project)@, name@) && (old(
                project,
            )@.wf() ==> final(project)@.wf()),
            Result::Err(e) => {
                &&& e == Error::NotFound
                &&& !contains_name(old(project)@.entries, name@)
                &&& *final(project) == *old(project)
            },
        },
{
    let mut i: usize = 0;
    while i < project.entries.len()
        invariant
            i <= project.entries.len(),
            project == old(project),
            forall|k: int| 0 <= k < i ==> project@.entries[k].name != name@,
        decreases project.entries.len() - i,
    {
        if project.entries[i].name == *name {
            proof {
                assert(old(project)@.entries[i as int].name == name@);
            }
            project.entries.remove(i);
            proof {
                assert(project@.entries =~= old(project)@.entries.remove(i as int));
            }
            let should_clear = match &project.current_profile {
                Option::None => false,
                Option::Some(cur) => *cur == *name,
            };
            if should_clear {
                project.current_profile = Option::None;
            }
            proof {
                let ghost before = old(project)@;
                if should_clear {
                    assert(before.current_profile == Option::Some(name@));
                    assert(project@.current_profile is None);
                } else {
                    assert(before.current_profile != Option::Some(name@));
                    assert(project@.current_profile == before.current_profile);
                }
                assert(removed_model(before, project@, name@));
                if before.wf() {
                    lemma_remove_preserves_distinct(before.entries, i as int);
                    if !should_clear {
                        if let Option::Some(c) = before.current_profile {
                            lemma_contains_name_remove(before.entries, i as int, c);
                        }
                    }
                }
            }
            return Ok(());
        }
        i += 1;
    }
    Err(Error::NotFound)
}

/// The decision core of the remove command. The shell resolves the project
/// and loads the registry; on success it persists the changed registry.
pub fn execute(args: &RemoveCommand, project_id: &Option<String>, project: &mut Project) -> (r:
    Result<(), Error>)
    ensures
        project_id is None ==> r == Err::<(), Error>(Error::NotInitialized) && *final(project)
            == *old(project),
        project_id is Some ==> match r {
            Result::Ok(_) => removed_model(old(project)@, final(project)@, args.name@) && (old(
                project,
            )@.wf() ==> final(project)@.wf()),
            Result::Err(e) => {
                &&& e == Error::NotFound
                &&& !contains_name(old(project)@.entries, args.name@)
                &&& *final(project) == *old(project)
            },
        },
{
    if project_id.is_none() {
        return Err(Error::NotInitialized);
    }
    remove_profile(project, &args.name)
}

} // verus!
