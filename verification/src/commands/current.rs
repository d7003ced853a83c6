use vstd::prelude::*;

use crate::common::Project;
use crate::errors::Error;

verus! {

/// Arguments of the current command, as the shell parses them.
#[derive(Debug, PartialEq)]
pub struct CurrentCommand {
    pub name: String,
}

/// What the current command reports: the active profile's name and its
/// storage token, whose body the shell prints.
#[derive(Debug)]
pub struct CurrentOutcome {
    pub name: String,
    pub id: String,
}

/// The decision core of the current command: names the active profile of the
/// registry, with its storage token, or says why there is none.
pub fn execute(project_id: &Option<String>, project: &Project) -> (r: Result<
    CurrentOutcome,
    Error,
>)
    requires
        project@.wf(),
    ensures
        project_id is None ==> r == Err::<CurrentOutcome, Error>(Error::NotInitialized),
        project_id is Some && project@.current_profile is None ==> r == Err::<
            CurrentOutcome,
            Error,
        >(Error::NotFound),
        project_id is Some && project@.current_profile is Some ==> (r matches Ok(o) && {
            &&& Option::Some(o.name@) == project@.current_profile
            &&& exists|i: int|
                0 <= i < project@.entries.len() && project@.entries[i].name == o.name@
                    && project@.entries[i].id == o.id@
        }),
{
    if project_id.is_none() {
        return Err(Error::NotInitialized);
    }
    match &project.current_profile {
        Option::None => Err(Error::NotFound),
        Option::Some(name) => {
            match crate::common::select_profile(project, name) {
                Err(_) => {
                    proof {
                        assert(false);
                    }
                    Err(Error::NotFound)
                },
                Ok(entry) => {
                    proof {
                        let i = choose|i: int|
                            0 <= i < project@.entries.len() && project@.entries[i] == entry@;
                        assert(project@.entries[i].name == name@ && project@.entries[i].id
                            == entry@.id);
                    }
                    Ok(CurrentOutcome { name: name.clone(), id: entry.id.clone() })
                },
            }
        },
    }
}

} // verus!
