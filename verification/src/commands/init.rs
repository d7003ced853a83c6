use vstd::prelude::*;

use crate::common::marker_id;
use crate::errors::Error;

verus! {

/// The decision core of the init command. `resolved` is what the project
/// locator found in the working directory; a project already carrying a
/// marker cannot be initialized again. Otherwise a fresh identifier is
/// minted for the shell to act on, in this order: create the project's data
/// directory, write an empty registry there, and only then write the marker
/// (so a failed data-directory creation never leaves a marker behind).
///
/// The identifier survives the marker round trip: a marker file holding
/// exactly it (with or without a trailing newline) resolves back to it.
pub fn execute(resolved: &Option<String>) -> (r: Result<String, Error>)
    ensures
        resolved is Some ==> r == Err::<String, Error>(Error::AlreadyInitialized),
        resolved is None ==> (r matches Ok(id) && {
            &&& id@.len() == 36
            &&& marker_id(id@) == id@
            &&& marker_id(id@ + "\n"@) == id@
        }),
{
    if resolved.is_some() {
        return Err(Error::AlreadyInitialized);
    }
    let id = crate::ids::fresh_id();
    proof {
        assert(id@[35] != '\n');
        reveal_strlit("\n");
        assert(("\n"@).len() == 1);
        assert((id@ + "\n"@)[36] == '\n');
        assert((id@ + "\n"@).drop_last() =~= id@);
    }
    Ok(id)
}

} // verus!
