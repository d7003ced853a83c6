use vstd::prelude::*;

use crate::common::{contains_name, Project};
use crate::errors::Error;

verus! {

/// Arguments of the show command: the profile whose body to print.
#[derive(Debug, PartialEq)]
pub struct ShowCommand {
    pub name: String,
}

/// The decision core of the show command: resolves the named profile to its
/// storage token; the shell reads the stored body there and prints it.
pub fn execute(args: &ShowCommand, project_id: &Option<String>, project: &Project) -> (r: Result<
    String,
    Error,
>)
    requires
        project@.wf(),
    ensures
        project_id is None ==> r == Err::<String, Error>(Error::NotInitialized),
        project_id is Some && !contains_name(project@.entries, args.name@) ==> r == Err::<
            String,
            Error,
        >(Error::NotFound),
        project_id is Some && contains_name(project@.entries, args.name@) ==> (r matches Ok(id)
            && exists|i: int|
            0 <= i < project@.entries.len() && project@.entries[i].name == args.name@
                && project@.entries[i].id == id@),
{
    if project_id.is_none() {
        return Err(Error::NotInitialized);
    }
    match crate::common::select_profile(project, &args.name) {
        Err(e) => Err(e),
        Ok(entry) => {
            proof {
                let i = choose|i: int|
                    0 <= i < project@.entries.len() && project@.entries[i] == entry@;
                assert(project@.entries[i].name == args.name@ && project@.entries[i].id
                    == entry@.id);
            }
            Ok(entry.id.clone())
        },
    }
}

} // verus!
