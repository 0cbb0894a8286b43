use tidysync::config::{choose_source_folder, new_config, require_folders, SetupError};
use tidysync::types::Folder;

fn folder(id: &str) -> Folder {
    Folder { id: id.to_string(), label: format!("{id} label"), path: format!("~/{id}") }
}

#[test]
fn setup_needs_folders() {
    assert_eq!(require_folders(&vec![]), Err(SetupError::NoFolders));
    assert_eq!(require_folders(&vec![folder("a")]), Ok(()));
    assert_eq!(
        SetupError::NoFolders.message(),
        "No folders found in Syncthing. Please create a folder in Syncthing before running tidysync."
    );
    assert_eq!(choose_source_folder(&vec![], "a\n"), Err(SetupError::NoFolders));
}

#[test]
fn setup_accepts_only_a_known_folder_id() {
    let folders = vec![folder("photos"), folder("docs")];
    // The line's newline is not part of the ID.
    assert_eq!(choose_source_folder(&folders, "docs\n"), Ok("docs".to_string()));
    assert_eq!(choose_source_folder(&folders, "docs"), Ok("docs".to_string()));
    let err = choose_source_folder(&folders, "  music \n").unwrap_err();
    assert_eq!(err, SetupError::UnknownFolder("music".to_string()));
    assert_eq!(err.message(), "Folder ID 'music' not found in Syncthing folders");
}

#[test]
fn setup_trims_the_target_directory() {
    let config = new_config("docs".to_string(), "  /home/me/archive\n");
    assert_eq!(config.source_folder_id, "docs");
    assert_eq!(config.target_directory, "/home/me/archive");
}
