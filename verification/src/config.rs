//! The configuration, and the decisions of the first-run setup that writes it.
use vstd::prelude::*;

use crate::text::{trim, trim_str};
use crate::types::Folder;

verus! {

/// Which Syncthing folder to watch, and where its finished files go.
#[derive(Debug, Clone)]
pub struct Config {
    pub source_folder_id: String,
    pub target_directory: String,
}

/// Why setup cannot write a configuration.
#[derive(Debug, Clone, PartialEq, Eq)]
pub enum SetupError {
    /// Syncthing shares no folders, so there is nothing to watch.
    NoFolders,
    /// The folder ID that was entered is not one of Syncthing's.
    UnknownFolder(String),
}

/// The message shown for a setup error.
pub open spec fn setup_error_text(e: SetupError) -> Seq<char> {
    match e {
        SetupError::NoFolders => "No folders found in Syncthing. Please create a folder in Syncthing before running tidysync."@,
        SetupError::UnknownFolder(id) => "Folder ID '"@ + id@ + "' not found in Syncthing folders"@,
    }
}

/// Some folder has the ID `id`.
pub open spec fn has_folder(folders: Seq<Folder>, id: Seq<char>) -> bool {
    exists|i: int| 0 <= i < folders.len() && (#[trigger] folders[i]).id@ == id
}

impl SetupError {
    /// The message shown for the error.
    pub fn message(&self) -> (s: String)
        ensures
            s@ == setup_error_text(*self),
    {
        match self {
            SetupError::NoFolders => String::from_str(
                "No folders found in Syncthing. Please create a folder in Syncthing before running tidysync.",
            ),
            SetupError::UnknownFolder(id) => String::from_str("Folder ID '").concat(
                id.as_str(),
            ).concat("' not found in Syncthing folders"),
        }
    }
}

/// Setup needs at least one Syncthing folder to offer before it asks
/// anything.
pub fn require_folders(folders: &Vec<Folder>) -> (r: Result<(), SetupError>)
    ensures
        r is Ok <==> folders.len() > 0,
        r is Err ==> r == Err::<(), SetupError>(SetupError::NoFolders),
{
    if folders.len() == 0 {
        Err(SetupError::NoFolders)
    } else {
        Ok(())
    }
}

/// The source folder the user picked, from what was typed in answer to the
/// question (surrounding white space, such as the line's newline, is not part
/// of it). It must be the ID of one of Syncthing's folders, so that the
/// watcher finds the folder it was set up for.
pub fn choose_source_folder(folders: &Vec<Folder>, answer: &str) -> (r: Result<String, SetupError>)
    ensures
        folders.len() == 0 ==> r == Err::<String, SetupError>(SetupError::NoFolders),
        folders.len() > 0 ==> match r {
            Ok(id) => id@ == trim(answer@) && has_folder(folders@, trim(answer@)),
            Err(e) => !has_folder(folders@, trim(answer@)) && (e matches SetupError::UnknownFolder(
                id,
            ) && id@ == trim(answer@)),
        },
{
    if folders.len() == 0 {
        return Err(SetupError::NoFolders);
    }
    let wanted = String::from_str(trim_str(answer));
    let mut i: usize = 0;
    while i < folders.len()
        invariant
            i <= folders.len(),
            wanted@ == trim(answer@),
            forall|j: int| 0 <= j < i ==> (#[trigger] folders@[j]).id@ != wanted@,
        decreases folders.len() - i,
    {
        if folders[i].id == wanted {
            assert(folders@[i as int].id@ == trim(answer@));
            return Ok(wanted);
        }
        i = i + 1;
    }
    Err(SetupError::UnknownFolder(wanted))
}

/// The configuration setup writes: the chosen folder, and the target
/// directory as typed, without surrounding white space.
pub fn new_config(source_folder_id: String, target_answer: &str) -> (c: Config)
    ensures
        c.source_folder_id == source_folder_id,
        c.target_directory@ == trim(target_answer@),
{
    Config { source_folder_id, target_directory: String::from_str(trim_str(target_answer)) }
}

} // verus!
