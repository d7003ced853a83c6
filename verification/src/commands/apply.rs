use vstd::prelude::*;

use crate::common::{contains_name, Project};
use crate::errors::Error;

verus! {

/// Arguments of the apply command: the profile to activate.
#[derive(Debug, PartialEq)]
pub struct Args {
    pub name: String,
}

/// True iff `answer`, one full line read from the confirmation prompt, is an
/// affirmative reply.
pub fn should_apply_env(answer: &String) -> (r: bool)
    ensures
        r == (answer@ == "Y\n"@ || answer@ == "y\n"@),
{
    let upper: String = "Y\n".to_owned();
    let lower: String = "y\n".to_owned();
    *answer == upper || *answer == lower
}

/// The decision core of the apply command. The shell resolves the project,
/// loads the registry, asks the confirmation question, and hands the answer
/// in as `confirmed`; on success it creates the `.env` symlink to the stored
/// body named by the returned token and only then persists the registry.
///
/// Without confirmation nothing changes and the command is `Aborted`; on
/// success the entries are untouched and the active-profile pointer moves to
/// `args.name`.
pub fn execute(args: &Args, project_id: &Option<String>, project: &mut Project, confirmed: bool)
    -> (r: Result<String, Error>)
    requires
        old(project)@.wf(),
    ensures
        final(project)@.wf(),
        project_id is None ==> r == Err::<String, Error>(Error::NotInitialized) && *final(project)
            == *old(project),
        project_id is Some && !contains_name(old(project)@.entries, args.name@) ==> r == Err::<
            String,
            Error,
        >(Error::NotFound) && *final(project) == *old(project),
        project_id is Some && contains_name(old(project)@.entries, args.name@) && !confirmed ==> r
            == Err::<String, Error>(Error::Aborted) && *final(project) == *old(project),
        project_id is Some && contains_name(old(project)@.entries, args.name@) && confirmed ==> (
        r matches Ok(id) && {
            &&& final(project)@.entries == old(project)@.entries
            &&& final(project)@.current_profile == Option::Some(args.name@)
            &&& exists|i: int|
                0 <= i < old(project)@.entries.len() && old(project)@.entries[i].name == args.name@
                    && old(project)@.entries[i].id == id@
        }),
{
    if project_id.is_none() {
        return Err(Error::NotInitialized);
    }
    let profile = crate::common::select_profile(project, &args.name);
    match profile {
        Err(e) => Err(e),
        Ok(entry) => {
            let profile_id = entry.id.clone();
            if !confirmed {
                return Err(Error::Aborted);
            }
            proof {
                let i = choose|i: int|
                    0 <= i < old(project)@.entries.len() && old(project)@.entries[i] == entry@;
                assert(old(project)@.entries[i].name == args.name@ && old(
                    project,
                )@.entries[i].id == profile_id@);
            }
            project.current_profile = Some(args.name.clone());
            Ok(profile_id)
        },
    }
}

} // verus!
