use paperview::watcher::{
    event_touches_path, is_change_event, watched_parent, CreateKind, FsEventKind, ModifyKind, RemoveKind, RenameMode,
    WatchEvent,
};

#[test]
fn treats_data_modifications_as_changes() {
    assert!(is_change_event(&FsEventKind::Modify(ModifyKind::Any)));
}

#[test]
fn classifies_change_events() {
    assert!(is_change_event(&FsEventKind::Modify(ModifyKind::Data)));
    assert!(is_change_event(&FsEventKind::Modify(ModifyKind::Metadata)));
    assert!(is_change_event(&FsEventKind::Modify(ModifyKind::Name(RenameMode::To))));
    assert!(!is_change_event(&FsEventKind::Modify(ModifyKind::Name(RenameMode::Other))));
    assert!(!is_change_event(&FsEventKind::Modify(ModifyKind::Other)));
    assert!(is_change_event(&FsEventKind::Create(CreateKind::File)));
    assert!(!is_change_event(&FsEventKind::Create(CreateKind::Folder)));
    assert!(is_change_event(&FsEventKind::Remove(RemoveKind::Any)));
    assert!(!is_change_event(&FsEventKind::Remove(RemoveKind::Folder)));
    assert!(!is_change_event(&FsEventKind::Access));
    assert!(is_change_event(&FsEventKind::Any));
    assert!(!is_change_event(&FsEventKind::Other));
}

#[test]
fn filters_events_to_target_path() {
    let target = "/tmp/paperview-watch-target.md";
    let other = "/tmp/paperview-watch-other.md".to_owned();
    let kind = FsEventKind::Modify(ModifyKind::Any);

    assert!(!event_touches_path(&kind, &[other], target));
    assert!(event_touches_path(&kind, &[target.to_owned()], target));
    assert!(!event_touches_path(&FsEventKind::Access, &[target.to_owned()], target));
}

#[test]
fn watches_the_parent_folder() {
    assert_eq!(watched_parent("/tmp/notes.md"), Some("/tmp".to_owned()));
    assert_eq!(watched_parent("notes.md"), None);
    assert_eq!(WatchEvent::Changed("a".to_owned()), WatchEvent::Changed("a".to_owned()));
}
