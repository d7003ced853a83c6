use vstd::prelude::*;

use crate::common::{
    contains_id, contains_name, lemma_contains_name_push,
    lemma_push_preserves_distinct, Entry, EntryModel, Project,
};
use crate::digest::{base64_of, generate_file_hash, sha256_of};
use crate::errors::Error;

verus! {

/// Arguments of the new command: the profile name and, optionally, the path
/// of a source file to copy the body from (when absent the shell collects
/// the body through the editor).
#[derive(Debug, PartialEq)]
pub struct NewCommand {
    pub source: Option<String>,
    pub name: String,
}

/// Builds the placeholder the editor opens on when a profile is created
/// without a source file.
pub fn new_env_template() -> (s: String)
    ensures
        s@ == "# Please add new env values"@,
{
    "# Please add new env values".to_owned()
}

/// Checks the text that came back from the editor: content unchanged from
/// the placeholder template holds nothing meaningful to store.
pub fn validate_edited(template: &String, edited: &String) -> (r: Result<(), Error>)
    ensures
        r is Ok <==> edited@ != template@,
        r is Err ==> r == Err::<(), Error>(Error::NoValidContent),
{
    if *edited == *template {
        Err(Error::NoValidContent)
    } else {
        Ok(())
    }
}

/// The decision core of the new command. The shell resolves the project,
/// loads the registry, and collects the profile body (copied from the source
/// file, or through the editor and `validate_edited`); on success it stores
/// `body` under the returned fresh token and persists the registry.
///
/// A name already present fails with `AlreadyExists` and changes nothing.
/// On success one entry is appended, in insertion order, carrying the name,
/// the content digest of `body`, and a token no other entry carries — so
/// both uniqueness invariants survive. In the vanishingly unlikely event
/// that the freshly drawn token collides with an existing one, the command
/// fails with `IoError` rather than break the invariant; that outcome is
/// possible only when some stored token already has the drawn length, so on
/// a registry without such a token — the empty registry above all — success
/// is owed outright.
pub fn execute(args: &NewCommand, project_id: &Option<String>, project: &mut Project, body: &Vec<
    u8,
>) -> (r: Result<String, Error>)
    requires
        old(project)@.wf(),
    ensures
        final(project)@.wf(),
        project_id is None ==> r == Err::<String, Error>(Error::NotInitialized) && *final(project)
            == *old(project),
        project_id is Some && contains_name(old(project)@.entries, args.name@) ==> r == Err::<
            String,
            Error,
        >(Error::AlreadyExists) && *final(project) == *old(project),
        r is Err ==> *final(project) == *old(project) && (r == Err::<String, Error>(
            Error::NotInitialized,
        ) || r == Err::<String, Error>(Error::AlreadyExists) || r == Err::<String, Error>(
            Error::IoError,
        )),
        r == Err::<String, Error>(Error::IoError) ==> project_id is Some && !contains_name(
            old(project)@.entries,
            args.name@,
        ),
        r is Err && project_id is Some && !contains_name(old(project)@.entries, args.name@) ==> r
            == Err::<String, Error>(Error::IoError),
        r == Err::<String, Error>(Error::IoError) ==> exists|i: int|
            #![trigger old(project)@.entries[i]]
            0 <= i < old(project)@.entries.len() && old(project)@.entries[i].id.len() == 36,
        project_id is Some && !contains_name(old(project)@.entries, args.name@) && (forall|i: int|
            #![trigger old(project)@.entries[i]]
            0 <= i < old(project)@.entries.len() ==> old(project)@.entries[i].id.len() != 36)
            ==> r is Ok,
        r matches Ok(id) ==> {
            &&& project_id is Some
            &&& !contains_name(old(project)@.entries, args.name@)
            &&& !contains_id(old(project)@.entries, id@)
            &&& final(project)@.entries == old(project)@.entries.push(
                EntryModel {
                    name: args.name@,
                    hash: base64_of(sha256_of(body@)),
                    id: id@,
                },
            )
            &&& final(project)@.current_profile == old(project)@.current_profile
        },
{
    if project_id.is_none() {
        return Err(Error::NotInitialized);
    }
    if crate::common::check_if_profile_exists(&project.entries, &args.name) {
        return Err(Error::AlreadyExists);
    }
    let id = crate::ids::fresh_id();
    if crate::common::check_if_id_exists(&project.entries, &id) {
        proof {
            let i = choose|i: int|
                0 <= i < project@.entries.len() && project@.entries[i].id == id@;
            assert(old(project)@.entries[i].id.len() == 36);
        }
        return Err(Error::IoError);
    }
    let hash = generate_file_hash(body);
    let entry = Entry { name: args.name.clone(), hash, id: id.clone() };
    proof {
        assert(entry@ == EntryModel {
            name: args.name@,
            hash: base64_of(sha256_of(body@)),
            id: id@,
        });
    }
    project.entries.push(entry);
    proof {
        assert(project@.entries =~= old(project)@.entries.push(
            EntryModel { name: args.name@, hash: base64_of(sha256_of(body@)), id: id@ },
        ));
        lemma_push_preserves_distinct(
            old(project)@.entries,
            EntryModel { name: args.name@, hash: base64_of(sha256_of(body@)), id: id@ },
        );
        if let Option::Some(c) = old(project)@.current_profile {
            lemma_contains_name_push(
                old(project)@.entries,
                EntryModel { name: args.name@, hash: base64_of(sha256_of(body@)), id: id@ },
                c,
            );
        }
    }
    Ok(id)
}

} // verus!
