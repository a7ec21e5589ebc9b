use checkpoint_db::{Checkpoint, CheckpointDb, CheckpointId, ErrorKind, Project, ProjectId};

/// Creates a simple database, hands its contents to the persistence layer
/// and rebuilds a store from them, then checks that the rebuilt store holds
/// the same data as the original.
#[test]
fn write_read_db() {
    let mut checkpoint_db = CheckpointDb::new();

    let time_now = chrono::Utc::now().timestamp();

    let zro_id = checkpoint_db.add_project("Zeroeth", "zro").unwrap();
    checkpoint_db.add_project("First", "frs").unwrap();
    let scn_id = checkpoint_db.add_project("Second", "scn").unwrap();

    // Adding a project with a short name that already exists should not work.
    assert!(
        checkpoint_db.add_project("Duplicate", "scn").is_err(),
        "Adding a duplicate project didn't fail, but it should"
    );

    // Removing a project should work.
    {
        let time = time_now + 10;
        let message = "This checkpoint should have no projects";
        let rmv_id = checkpoint_db
            .add_project("This project should be removed", "rmv")
            .unwrap();
        checkpoint_db.add_checkpoint(time, message, rmv_id).unwrap();
        assert!(
            checkpoint_db.remove_project(rmv_id).is_ok(),
            "Could not remove a project"
        );
        let checkpoint = checkpoint_db
            .get_checkpoint(&CheckpointId::Timestamp(time))
            .unwrap();
        assert_eq!(checkpoint.message, message.to_string());
        assert_eq!(checkpoint.project_id, ProjectId::NoId);
    }

    checkpoint_db
        .add_checkpoint(time_now, "This checkpoint should be overwritten", zro_id)
        .unwrap();

    // Overwriting an existing checkpoint.
    checkpoint_db
        .add_checkpoint(time_now + 1, "This is a message", scn_id)
        .unwrap();

    // Adding and then removing a checkpoint.
    checkpoint_db
        .add_checkpoint(
            time_now + 2,
            "This checkpoint should be removed",
            ProjectId::NoId,
        )
        .unwrap();
    assert!(checkpoint_db
        .remove_checkpoint(&CheckpointId::Timestamp(time_now + 2))
        .is_some());

    // The parts handed to the persistence adapter rebuild an equal store.
    let checkpoint_db_read = CheckpointDb::from_parts(
        checkpoint_db.projects().clone(),
        checkpoint_db.checkpoints().clone(),
    )
    .unwrap();
    assert!(checkpoint_db.same_as(&checkpoint_db_read));
}

#[test]
fn duplicate_short_name_fails_and_registry_unchanged() {
    let mut db = CheckpointDb::new();
    let first = db.add_project("Alpha", "a").unwrap();
    assert_eq!(first, ProjectId::Id(0));
    let before = db.projects().clone();

    let err = db.add_project("Another Alpha", "a").unwrap_err();
    assert!(matches!(err.kind(), ErrorKind::AlreadyExists));

    let after = db.projects();
    assert_eq!(before.len(), after.len());
    for (x, y) in before.iter().zip(after.iter()) {
        assert_eq!(x.0, y.0);
        assert_eq!(x.1.long_name, y.1.long_name);
        assert_eq!(x.1.short_name, y.1.short_name);
    }
}

#[test]
fn empty_names_are_invalid_input() {
    let mut db = CheckpointDb::new();
    let err = db.add_project("Alpha", "").unwrap_err();
    assert!(matches!(err.kind(), ErrorKind::InvalidInput));
    let err = db.add_project("", "a").unwrap_err();
    assert!(matches!(err.kind(), ErrorKind::InvalidInput));
    assert_eq!(db.project_count(), 0);
}

#[test]
fn smallest_unused_id_is_reused() {
    let mut db = CheckpointDb::new();
    assert_eq!(db.add_project("Zero", "z").unwrap(), ProjectId::Id(0));
    assert_eq!(db.add_project("One", "o").unwrap(), ProjectId::Id(1));
    assert_eq!(db.add_project("Two", "t").unwrap(), ProjectId::Id(2));
    db.remove_project(ProjectId::Id(1)).unwrap();
    // The freed id is the smallest unused one, so it is handed out again.
    assert_eq!(db.add_project("New One", "n").unwrap(), ProjectId::Id(1));
}

#[test]
fn cascade_strips_removed_project_from_all_checkpoints() {
    let mut db = CheckpointDb::new();
    let keep = db.add_project("Keep", "k").unwrap();
    let gone = db.add_project("Gone", "g").unwrap();
    db.add_checkpoint(100, "one", gone).unwrap();
    db.add_checkpoint(200, "two", keep).unwrap();
    db.add_checkpoint(300, "three", gone).unwrap();

    db.remove_project(gone).unwrap();

    assert_eq!(
        db.get_checkpoint(&CheckpointId::Timestamp(100))
            .unwrap()
            .project_id,
        ProjectId::NoId
    );
    assert_eq!(
        db.get_checkpoint(&CheckpointId::Timestamp(200))
            .unwrap()
            .project_id,
        keep
    );
    assert_eq!(
        db.get_checkpoint(&CheckpointId::Timestamp(300))
            .unwrap()
            .project_id,
        ProjectId::NoId
    );
}

#[test]
fn removing_a_missing_project_fails_and_is_a_no_op() {
    let mut db = CheckpointDb::new();
    let keep = db.add_project("Keep", "k").unwrap();
    db.add_checkpoint(100, "one", keep).unwrap();

    let err = db.remove_project(ProjectId::Id(7)).unwrap_err();
    assert!(matches!(err.kind(), ErrorKind::InvalidInput));
    let err = db.remove_project(ProjectId::NoId).unwrap_err();
    assert!(matches!(err.kind(), ErrorKind::InvalidInput));

    assert_eq!(db.project_count(), 1);
    assert_eq!(
        db.get_checkpoint(&CheckpointId::Timestamp(100))
            .unwrap()
            .project_id,
        keep
    );
}

#[test]
fn overwrite_at_same_timestamp_yields_second_record() {
    let mut db = CheckpointDb::new();
    let a = db.add_project("Alpha", "a").unwrap();
    let b = db.add_project("Beta", "b").unwrap();
    db.add_checkpoint(500, "record a", a).unwrap();
    db.add_checkpoint(500, "record b", b).unwrap();

    assert_eq!(db.checkpoint_count(), 1);
    let cp = db.get_checkpoint(&CheckpointId::Timestamp(500)).unwrap();
    assert_eq!(cp.message, "record b");
    assert_eq!(cp.project_id, b);
}

#[test]
fn adding_with_unregistered_project_fails_without_insert() {
    let mut db = CheckpointDb::new();
    let err = db
        .add_checkpoint(100, "dangling", ProjectId::Id(3))
        .unwrap_err();
    assert!(matches!(err.kind(), ErrorKind::InvalidInput));
    assert_eq!(db.checkpoint_count(), 0);
}

#[test]
fn addressing_round_trips_for_every_timestamp() {
    let mut db = CheckpointDb::new();
    for t in [100i64, 250, 400, 1000] {
        db.add_checkpoint(t, "entry", ProjectId::NoId).unwrap();
    }
    for t in [100i64, 250, 400, 1000] {
        let pos = CheckpointId::Timestamp(t).to_position(&db).unwrap();
        assert_eq!(CheckpointId::Position(pos).to_timestamp(&db), Some(t));
    }
    // Position 0 is the most recent timestamp.
    assert_eq!(CheckpointId::Position(0).to_timestamp(&db), Some(1000));
    assert_eq!(CheckpointId::Position(3).to_timestamp(&db), Some(100));
    assert_eq!(CheckpointId::Position(4).to_timestamp(&db), None);
    assert_eq!(CheckpointId::Timestamp(999).to_position(&db), None);
    assert!(!CheckpointId::Timestamp(999).resolves(&db));
    assert!(CheckpointId::Timestamp(400).resolves(&db));
}

#[test]
fn duration_is_gap_to_predecessor() {
    let mut db = CheckpointDb::new();
    db.add_checkpoint(100, "oldest", ProjectId::NoId).unwrap();
    db.add_checkpoint(110, "middle", ProjectId::NoId).unwrap();
    db.add_checkpoint(125, "newest", ProjectId::NoId).unwrap();

    assert_eq!(
        db.get_checkpoint_duration(&CheckpointId::Timestamp(125)),
        Some(15)
    );
    assert_eq!(
        db.get_checkpoint_duration(&CheckpointId::Timestamp(110)),
        Some(10)
    );
    // The oldest entry has no predecessor, hence no duration.
    assert_eq!(
        db.get_checkpoint_duration(&CheckpointId::Timestamp(100)),
        None
    );
    // A nonexistent entry has no duration either.
    assert_eq!(
        db.get_checkpoint_duration(&CheckpointId::Timestamp(999)),
        None
    );
}

#[test]
fn get_log_returns_full_record() {
    let mut db = CheckpointDb::new();
    let p = db.add_project("Alpha", "a").unwrap();
    db.add_checkpoint(100, "oldest", ProjectId::NoId).unwrap();
    db.add_checkpoint(110, "newest", p).unwrap();

    let log = db.get_log(&CheckpointId::Timestamp(110)).unwrap();
    assert_eq!(log.timestamp, 110);
    assert_eq!(log.position, 0);
    assert_eq!(log.duration, Some(10));
    assert_eq!(log.checkpoint.message, "newest");
    assert_eq!(log.checkpoint.project_id, p);

    let log = db.get_log(&CheckpointId::Position(1)).unwrap();
    assert_eq!(log.timestamp, 100);
    assert_eq!(log.position, 1);
    assert_eq!(log.duration, None);

    assert!(db.get_log(&CheckpointId::Timestamp(999)).is_none());
}

#[test]
fn log_between_times_is_exclusive_and_descending() {
    let mut db = CheckpointDb::new();
    for t in [100i64, 110, 125, 140, 160] {
        db.add_checkpoint(t, "entry", ProjectId::NoId).unwrap();
    }

    // Bounds are exclusive on both ends, in either argument order.
    let log = db.get_log_between_times(100, 160);
    assert_eq!(log.len(), 3);
    assert_eq!(log[0].timestamp, 140);
    assert_eq!(log[1].timestamp, 125);
    assert_eq!(log[2].timestamp, 110);
    assert_eq!(log[0].duration, Some(15));
    assert_eq!(log[1].duration, Some(15));
    assert_eq!(log[2].duration, Some(10));
    assert_eq!(log[0].position, 1);
    assert_eq!(log[2].position, 3);

    let swapped = db.get_log_between_times(160, 100);
    assert_eq!(swapped.len(), 3);
    assert_eq!(swapped[0].timestamp, 140);

    assert_eq!(db.get_log_between_times(100, 110).len(), 0);
    assert_eq!(db.get_log_between_times(50, 99).len(), 0);
}

#[test]
fn set_checkpoint_project_validates_both_sides() {
    let mut db = CheckpointDb::new();
    let p = db.add_project("Alpha", "a").unwrap();
    db.add_checkpoint(100, "entry", ProjectId::NoId).unwrap();

    db.set_checkpoint_project(CheckpointId::Timestamp(100), p)
        .unwrap();
    assert_eq!(
        db.get_checkpoint(&CheckpointId::Timestamp(100))
            .unwrap()
            .project_id,
        p
    );

    let err = db
        .set_checkpoint_project(CheckpointId::Timestamp(999), p)
        .unwrap_err();
    assert!(matches!(err.kind(), ErrorKind::InvalidInput));
    let err = db
        .set_checkpoint_project(CheckpointId::Timestamp(100), ProjectId::Id(9))
        .unwrap_err();
    assert!(matches!(err.kind(), ErrorKind::InvalidInput));
}

#[test]
fn get_checkpoint_mut_edits_in_place() {
    let mut db = CheckpointDb::new();
    db.add_checkpoint(100, "before", ProjectId::NoId).unwrap();

    {
        let cp = db.get_checkpoint_mut(&CheckpointId::Timestamp(100)).unwrap();
        cp.message = "after".to_string();
    }
    assert_eq!(
        db.get_checkpoint(&CheckpointId::Timestamp(100))
            .unwrap()
            .message,
        "after"
    );
    assert!(db.get_checkpoint_mut(&CheckpointId::Timestamp(999)).is_none());
}

#[test]
fn remove_checkpoint_by_position() {
    let mut db = CheckpointDb::new();
    db.add_checkpoint(100, "oldest", ProjectId::NoId).unwrap();
    db.add_checkpoint(200, "newest", ProjectId::NoId).unwrap();

    let removed = db.remove_checkpoint(&CheckpointId::Position(0)).unwrap();
    assert_eq!(removed.message, "newest");
    assert_eq!(db.checkpoint_count(), 1);
    assert!(db.remove_checkpoint(&CheckpointId::Position(5)).is_none());
}

#[test]
fn project_lookups_agree() {
    let mut db = CheckpointDb::new();
    let a = db.add_project("Alpha", "a").unwrap();
    db.add_project("Beta", "b").unwrap();

    assert_eq!(db.project_id_from_short_name("a"), Some(a));
    assert_eq!(db.project_id_from_short_name("missing"), None);

    let prj = db.project_from_project_id(a).unwrap();
    assert_eq!(prj.long_name, "Alpha");
    assert_eq!(prj.short_name, "a");
    assert!(db.project_from_project_id(ProjectId::Id(9)).is_none());
    assert!(db.project_from_project_id(ProjectId::NoId).is_none());
}

#[test]
fn from_parts_rejects_invalid_data() {
    let prj = |long: &str, short: &str| Project {
        long_name: long.to_string(),
        short_name: short.to_string(),
    };
    let cp = |msg: &str, pid: ProjectId| Checkpoint {
        message: msg.to_string(),
        project_id: pid,
    };

    // Unsorted project ids.
    assert!(CheckpointDb::from_parts(
        vec![(1, prj("B", "b")), (0, prj("A", "a"))],
        vec![],
    )
    .is_none());
    // Duplicate short names.
    assert!(CheckpointDb::from_parts(
        vec![(0, prj("A", "x")), (1, prj("B", "x"))],
        vec![],
    )
    .is_none());
    // Unsorted timestamps.
    assert!(CheckpointDb::from_parts(
        vec![],
        vec![(200, cp("two", ProjectId::NoId)), (100, cp("one", ProjectId::NoId))],
    )
    .is_none());
    // A checkpoint referencing an unregistered project.
    assert!(CheckpointDb::from_parts(
        vec![(0, prj("A", "a"))],
        vec![(100, cp("one", ProjectId::Id(1)))],
    )
    .is_none());
    // Valid data is accepted.
    let db = CheckpointDb::from_parts(
        vec![(0, prj("A", "a"))],
        vec![(100, cp("one", ProjectId::Id(0)))],
    )
    .unwrap();
    assert_eq!(db.project_count(), 1);
    assert_eq!(db.checkpoint_count(), 1);
}

/// The end-to-end scenario: projects are created, a duplicate short name is
/// rejected, a checkpoint is overwritten in full, a checkpoint is added and
/// removed, removing a project cascades, and the store survives the
/// persistence round trip unchanged.
#[test]
fn end_to_end_scenario() {
    let t: i64 = 1_000_000;
    let mut db = CheckpointDb::new();

    let zro = db.add_project("Zeroeth", "zro").unwrap();
    let frs = db.add_project("First", "frs").unwrap();
    let scn = db.add_project("Second", "scn").unwrap();

    let err = db.add_project("Duplicate", "scn").unwrap_err();
    assert!(matches!(err.kind(), ErrorKind::AlreadyExists));

    db.add_checkpoint(t, "first try", zro).unwrap();
    db.add_checkpoint(t, "second try", frs).unwrap();
    let cp = db.get_checkpoint(&CheckpointId::Timestamp(t)).unwrap();
    assert_eq!(cp.message, "second try");
    assert_eq!(cp.project_id, frs);

    db.add_checkpoint(t + 1, "tagged second", scn).unwrap();
    db.add_checkpoint(t + 2, "to be removed", ProjectId::NoId)
        .unwrap();
    assert!(db
        .remove_checkpoint(&CheckpointId::Timestamp(t + 2))
        .is_some());

    db.remove_project(scn).unwrap();
    assert_eq!(
        db.get_checkpoint(&CheckpointId::Timestamp(t + 1))
            .unwrap()
            .project_id,
        ProjectId::NoId
    );

    let reread =
        CheckpointDb::from_parts(db.projects().clone(), db.checkpoints().clone()).unwrap();
    assert!(db.same_as(&reread));
    assert!(reread.same_as(&db));
}

#[test]
fn persistence_round_trip_always_holds() {
    let mut db = CheckpointDb::new();
    let p = db.add_project("Alpha", "a").unwrap();
    db.add_checkpoint(100, "one", p).unwrap();
    db.add_checkpoint(200, "two", ProjectId::NoId).unwrap();

    // The library proves this function returns true for every store.
    assert!(checkpoint_db::laws::parts_round_trip_holds(&db));

    // The same round trip, spelled out.
    let rebuilt =
        CheckpointDb::from_parts(db.cloned_projects(), db.cloned_checkpoints()).unwrap();
    assert!(db.same_as(&rebuilt));
}
