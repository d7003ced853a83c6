use vstd::prelude::*;

use crate::common::Project;
use crate::errors::Error;

verus! {

/// The decision core of the list command: the names of the registry's
/// profiles, in insertion order, for the shell to print.
pub fn execute(project_id: &Option<String>, project: &Project) -> (r: Result<Vec<String>, Error>)
    ensures
        project_id is None ==> r == Err::<Vec<String>, Error>(Error::NotInitialized),
        project_id is Some ==> (r matches Ok(names) && {
            &&& names@.len() == project@.entries.len()
            &&& forall|i: int|
                0 <= i < names@.len() ==> #[trigger] names@[i]@ == project@.entries[i].name
        }),
{
    if project_id.is_none() {
        return Err(Error::NotInitialized);
    }
    let mut names: Vec<String> = Vec::new();
    let mut i: usize = 0;
    while i < project.entries.len()
        invariant
            i <= project.entries.len(),
            names@.len() == i,
            forall|k: int| 0 <= k < i ==> #[trigger] names@[k]@ == project@.entries[k].name,
        decreases project.entries.len() - i,
    {
        names.push(project.entries[i].name.clone());
        i += 1;
    }
    Ok(names)
}

} // verus!
