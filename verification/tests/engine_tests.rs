use sitt::project_model::ProjectStatus;
use sitt::project_service::{ProjectError, ProjectService};
use sitt::time_track_model::TimeTrackStatus;
use sitt::time_track_service::{TimeTrackError, TimeTrackService};
use sitt::user_model::{User, UserRole};

fn user(id: &str, role: UserRole) -> User {
    User {
        id: id.to_string(),
        name: id.to_string(),
        role,
        api_key: None,
        created_at: 0,
        created_by: "tests".to_string(),
    }
}

fn engines() -> (ProjectService, TimeTrackService) {
    (ProjectService::new(), TimeTrackService::new())
}

#[test]
fn start_stop_round_trip_duration() {
    let (mut ps, mut ts) = engines();
    let u = user("owner-1", UserRole::User);
    let p = ps.create(&u, "Writing".to_string(), 50).unwrap();

    let (entry, name) = ts.start(&mut ps, &u, &p.id, None, 1000).unwrap();
    assert_eq!(name, "Writing");
    assert_eq!(entry.status, TimeTrackStatus::InProgress);
    assert_eq!(entry.started_at, 1000);

    let (stopped, _) = ts.stop(&mut ps, &u, &p.id, 1125).unwrap();
    assert_eq!(stopped.status, TimeTrackStatus::Finished);
    assert_eq!(stopped.stopped_at, Some(1125));
    assert_eq!(stopped.total_duration, 125);

    let seen = ps.get(&u, &p.id, &ts, 1125).unwrap();
    assert_eq!(seen.status, ProjectStatus::Inactive);
    assert_eq!(seen.total_duration, 125);
}

#[test]
fn active_project_reports_live_duration() {
    let (mut ps, mut ts) = engines();
    let u = user("owner-2", UserRole::User);
    let p = ps.create(&u, "Reading".to_string(), 10).unwrap();
    ts.start(&mut ps, &u, &p.id, None, 1000).unwrap();

    // The live elapsed time is added at read time, never persisted.
    let seen = ps.get(&u, &p.id, &ts, 1040).unwrap();
    assert_eq!(seen.status, ProjectStatus::Active);
    assert_eq!(seen.total_duration, 40);
    let stored = ps
        .projects
        .iter()
        .find(|q| q.id == p.id)
        .unwrap()
        .total_duration;
    assert_eq!(stored, 0);
}

#[test]
fn start_twice_returns_already_tracking() {
    let (mut ps, mut ts) = engines();
    let u = user("owner-3", UserRole::User);
    let p = ps.create(&u, "Solo".to_string(), 5).unwrap();
    ts.start(&mut ps, &u, &p.id, None, 100).unwrap();
    assert_eq!(ts.entries.len(), 1);

    let again = ts.start(&mut ps, &u, &p.id, None, 200);
    assert!(matches!(
        again,
        Err(TimeTrackError::AlreadyTrackingTime(ref n)) if n == "Solo"
    ));
    assert_eq!(ts.entries.len(), 1, "a second entry must not be created");
}

#[test]
fn stop_without_start_returns_no_in_progress() {
    let (mut ps, mut ts) = engines();
    let u = user("owner-4", UserRole::User);
    let p = ps.create(&u, "Idle".to_string(), 5).unwrap();

    let r = ts.stop(&mut ps, &u, &p.id, 100);
    assert!(matches!(
        r,
        Err(TimeTrackError::NoInProgressTimeTracking(ref n)) if n == "Idle"
    ));
    assert_eq!(ts.entries.len(), 0);
    let stored = ps.projects.iter().find(|q| q.id == p.id).unwrap();
    assert_eq!(stored.status, ProjectStatus::Inactive);
    assert_eq!(stored.total_duration, 0);
}

#[test]
fn edit_delta_propagates_to_project() {
    let (mut ps, mut ts) = engines();
    let u = user("owner-5", UserRole::User);
    let p = ps.create(&u, "Edited".to_string(), 5).unwrap();

    let (entry, _) = ts
        .create(&mut ps, &u, p.id.clone(), 1000, 1100, None, 1100)
        .unwrap();
    assert_eq!(entry.total_duration, 100);
    assert_eq!(
        ps.projects.iter().find(|q| q.id == p.id).unwrap().total_duration,
        100
    );

    let (edited, _) = ts
        .update(&mut ps, &u, p.id.clone(), entry.id.clone(), 2000, 2040, 3000)
        .unwrap();
    assert_eq!(edited.total_duration, 40);
    assert_eq!(
        ps.projects.iter().find(|q| q.id == p.id).unwrap().total_duration,
        40,
        "the aggregate must hold the new duration, not 140 and not 0"
    );
}

#[test]
fn delete_delta_propagates_to_project() {
    let (mut ps, mut ts) = engines();
    let u = user("owner-6", UserRole::User);
    let p = ps.create(&u, "Halved".to_string(), 5).unwrap();

    let (first, _) = ts
        .create(&mut ps, &u, p.id.clone(), 0, 150, None, 200)
        .unwrap();
    ts.create(&mut ps, &u, p.id.clone(), 300, 450, None, 500)
        .unwrap();
    assert_eq!(
        ps.projects.iter().find(|q| q.id == p.id).unwrap().total_duration,
        300
    );

    ts.delete(&mut ps, &u, p.id.clone(), first.id.clone(), 600)
        .unwrap();
    assert_eq!(
        ps.projects.iter().find(|q| q.id == p.id).unwrap().total_duration,
        150
    );
    assert_eq!(ts.entries.len(), 1);
}

#[test]
fn cap_blocks_sixteenth_project_for_non_admin() {
    let (mut ps, _ts) = engines();
    let u = user("owner-7", UserRole::User);
    for k in 0..15 {
        ps.create(&u, format!("p{}", k), k).unwrap();
    }
    let overflow = ps.create(&u, "p15".to_string(), 15);
    assert!(matches!(overflow, Err(ProjectError::TooManyProjects)));
    assert_eq!(ps.projects.len(), 15);

    let admin = user("admin-7", UserRole::Admin);
    for k in 0..15 {
        ps.create(&admin, format!("a{}", k), k).unwrap();
    }
    let allowed = ps.create(&admin, "a15".to_string(), 15);
    assert!(allowed.is_ok(), "an admin is exempt from the cap");
}

#[test]
fn same_name_is_rejected_per_owner() {
    let (mut ps, _ts) = engines();
    let u = user("owner-8", UserRole::User);
    ps.create(&u, "X".to_string(), 1).unwrap();
    let second = ps.create(&u, "X".to_string(), 2);
    assert!(matches!(
        second,
        Err(ProjectError::ProjectExistsWithSameName(ref n)) if n == "X"
    ));

    // Another owner may reuse the name.
    let v = user("owner-9", UserRole::User);
    assert!(ps.create(&v, "X".to_string(), 3).is_ok());
}

#[test]
fn cascade_delete_removes_entries_then_project() {
    let (mut ps, mut ts) = engines();
    let u = user("owner-10", UserRole::User);
    let p = ps.create(&u, "Done".to_string(), 5).unwrap();
    for k in 0..3u64 {
        ts.create(&mut ps, &u, p.id.clone(), k * 100, k * 100 + 50, None, 1000)
            .unwrap();
    }
    assert_eq!(ts.entries.len(), 3);

    ps.delete(&u, &p.id, &mut ts).unwrap();
    assert_eq!(ts.entries.len(), 0);
    assert_eq!(ps.projects.len(), 0);
}

#[test]
fn delete_with_no_entries_succeeds() {
    let (mut ps, mut ts) = engines();
    let u = user("owner-11", UserRole::User);
    let p = ps.create(&u, "Empty".to_string(), 5).unwrap();
    ps.delete(&u, &p.id, &mut ts).unwrap();
    assert_eq!(ps.projects.len(), 0);
    assert_eq!(ts.entries.len(), 0);
}

#[test]
fn delete_unknown_project_is_not_found() {
    let (mut ps, mut ts) = engines();
    let u = user("owner-12", UserRole::User);
    let r = ps.delete(&u, "nothing-here", &mut ts);
    assert!(matches!(r, Err(ProjectError::NotFound)));
}

#[test]
fn get_unknown_project_is_not_found() {
    let (ps, ts) = engines();
    let u = user("owner-13", UserRole::User);
    let r = ps.get(&u, "missing", &ts, 0);
    assert!(matches!(r, Err(ProjectError::NotFound)));
}

#[test]
fn other_owners_project_is_not_found() {
    let (mut ps, mut ts) = engines();
    let u = user("owner-14", UserRole::User);
    let stranger = user("owner-15", UserRole::User);
    let p = ps.create(&u, "Mine".to_string(), 1).unwrap();
    assert!(matches!(
        ps.get(&stranger, &p.id, &ts, 0),
        Err(ProjectError::NotFound)
    ));
    assert!(matches!(
        ts.start(&mut ps, &stranger, &p.id, None, 0),
        Err(TimeTrackError::ProjectNotFound)
    ));
}

#[test]
fn duplicate_project_id_is_rejected() {
    let (mut ps, _ts) = engines();
    let u = user("owner-16", UserRole::User);
    ps.create_with_id(&u, "First".to_string(), "fixed-id".to_string(), 1)
        .unwrap();
    let clash = ps.create_with_id(&u, "Second".to_string(), "fixed-id".to_string(), 2);
    assert!(matches!(clash, Err(ProjectError::Unknown(_))));
    assert_eq!(ps.projects.len(), 1);
}

#[test]
fn duplicate_entry_id_is_rejected() {
    let (mut ps, mut ts) = engines();
    let u = user("owner-17", UserRole::User);
    let p = ps.create(&u, "Clash".to_string(), 1).unwrap();
    ts.create_with_id(
        &mut ps,
        &u,
        p.id.clone(),
        0,
        10,
        None,
        "entry-1".to_string(),
        10,
    )
    .unwrap();
    let clash = ts.create_with_id(
        &mut ps,
        &u,
        p.id.clone(),
        20,
        30,
        None,
        "entry-1".to_string(),
        30,
    );
    assert!(matches!(clash, Err(TimeTrackError::Unknown(_))));
    assert_eq!(ts.entries.len(), 1);
}

#[test]
fn broken_invariant_is_surfaced_not_repaired() {
    let (mut ps, ts) = engines();
    let u = user("owner-18", UserRole::User);
    let p = ps.create(&u, "Broken".to_string(), 1).unwrap();

    // Force the stored status to Active without an in-progress entry,
    // through the generic persist.
    let mut flipped = p.clone();
    flipped.status = ProjectStatus::Active;
    ps.update(&u, &flipped, 2).unwrap();

    let r = ps.get(&u, &p.id, &ts, 3);
    assert!(matches!(
        r,
        Err(ProjectError::TimeTrackError(
            TimeTrackError::NoInProgressTimeTracking(ref n)
        )) if n == "Broken"
    ));
}

#[test]
fn edit_of_in_progress_entry_is_rejected() {
    let (mut ps, mut ts) = engines();
    let u = user("owner-19", UserRole::User);
    let p = ps.create(&u, "Running".to_string(), 1).unwrap();
    let (entry, _) = ts.start(&mut ps, &u, &p.id, None, 100).unwrap();

    let r = ts.update(&mut ps, &u, p.id.clone(), entry.id.clone(), 0, 50, 200);
    assert!(matches!(r, Err(TimeTrackError::NotFound)));
    assert_eq!(ts.entries[0].status, TimeTrackStatus::InProgress);
}

#[test]
fn edit_of_unknown_entry_is_not_found() {
    let (mut ps, mut ts) = engines();
    let u = user("owner-20", UserRole::User);
    let p = ps.create(&u, "NoEntry".to_string(), 1).unwrap();
    let r = ts.update(&mut ps, &u, p.id.clone(), "ghost".to_string(), 0, 50, 200);
    assert!(matches!(r, Err(TimeTrackError::NotFound)));
}

#[test]
fn deleting_in_progress_entry_flips_project_inactive() {
    let (mut ps, mut ts) = engines();
    let u = user("owner-21", UserRole::User);
    let p = ps.create(&u, "Flipped".to_string(), 1).unwrap();
    let (entry, _) = ts.start(&mut ps, &u, &p.id, None, 100).unwrap();

    ts.delete(&mut ps, &u, p.id.clone(), entry.id.clone(), 200)
        .unwrap();
    let stored = ps.projects.iter().find(|q| q.id == p.id).unwrap();
    assert_eq!(stored.status, ProjectStatus::Inactive);
    assert_eq!(stored.total_duration, 0, "the aggregate is untouched");
    assert_eq!(ts.entries.len(), 0);
}

#[test]
fn delete_of_entry_owned_by_other_user_is_not_found() {
    let (mut ps, mut ts) = engines();
    let u = user("owner-22", UserRole::User);
    let stranger = user("owner-23", UserRole::User);
    let p = ps.create(&u, "Guarded".to_string(), 1).unwrap();
    // The stranger gets an own project so that the project lookup passes,
    // then aims at the other user's entry.
    let qp = ps.create(&stranger, "Decoy".to_string(), 1).unwrap();
    let (entry, _) = ts
        .create(&mut ps, &u, p.id.clone(), 0, 10, None, 10)
        .unwrap();
    let r = ts.delete(&mut ps, &stranger, qp.id.clone(), entry.id.clone(), 20);
    assert!(matches!(r, Err(TimeTrackError::NotFound)));
    assert_eq!(ts.entries.len(), 1);
}

#[test]
fn backdated_interval_end_before_start_is_clamped_to_zero() {
    // The ordering of the two instants is not validated; an inverted
    // interval is clamped to zero by a documented decision.
    let (mut ps, mut ts) = engines();
    let u = user("owner-24", UserRole::User);
    let p = ps.create(&u, "Clamp".to_string(), 1).unwrap();
    let (entry, _) = ts
        .create(&mut ps, &u, p.id.clone(), 100, 40, None, 200)
        .unwrap();
    assert_eq!(entry.total_duration, 0);
    assert_eq!(
        ps.projects.iter().find(|q| q.id == p.id).unwrap().total_duration,
        0
    );
}

#[test]
fn update_name_replaces_name_and_stamps_modification() {
    let (mut ps, _ts) = engines();
    let u = user("owner-25", UserRole::User);
    let p = ps.create(&u, "Before".to_string(), 1).unwrap();
    let renamed = ps
        .update_name(&u, p.id.clone(), "After".to_string(), 9)
        .unwrap();
    assert_eq!(renamed.name, "After");
    assert_eq!(renamed.modified_at, Some(9));
    assert_eq!(renamed.modified_by, Some(u.id.clone()));
    assert_eq!(renamed.total_duration, p.total_duration);
}

#[test]
fn get_all_projects_sorts_active_first_then_recent() {
    let (mut ps, mut ts) = engines();
    let u = user("owner-26", UserRole::User);
    let older = ps.create(&u, "Older".to_string(), 10).unwrap();
    let newer = ps.create(&u, "Newer".to_string(), 20).unwrap();
    let running = ps.create(&u, "Tracked".to_string(), 30).unwrap();
    ts.start(&mut ps, &u, &running.id, None, 100).unwrap();

    let listing = ps.get_all(&u, &ts, 160).unwrap();
    let names: Vec<&str> = listing.iter().map(|p| p.name.as_str()).collect();
    assert_eq!(names, vec!["Tracked", "Newer", "Older"]);
    // The active project reports its live duration.
    assert_eq!(listing[0].total_duration, 60);
    assert_eq!(
        ps.projects.iter().find(|q| q.id == older.id).unwrap().total_duration,
        0
    );
    assert_eq!(
        ps.projects.iter().find(|q| q.id == newer.id).unwrap().total_duration,
        0
    );
}

#[test]
fn get_all_entries_sorted_by_start_with_live_duration() {
    let (mut ps, mut ts) = engines();
    let u = user("owner-27", UserRole::User);
    let p = ps.create(&u, "Log".to_string(), 1).unwrap();
    ts.create(&mut ps, &u, p.id.clone(), 500, 520, None, 600)
        .unwrap();
    ts.create(&mut ps, &u, p.id.clone(), 100, 130, None, 600)
        .unwrap();
    ts.start(&mut ps, &u, &p.id, Some("live".to_string()), 700)
        .unwrap();

    let (entries, name) = ts.get_all(&ps, &u, &p.id, 745).unwrap();
    assert_eq!(name, "Log");
    let starts: Vec<u64> = entries.iter().map(|e| e.started_at).collect();
    assert_eq!(starts, vec![100, 500, 700]);
    assert_eq!(entries[2].total_duration, 45, "live elapsed time");
    assert_eq!(entries[0].total_duration, 30);
    assert_eq!(entries[1].total_duration, 20);
}

#[test]
fn get_in_progress_reports_live_duration_or_fails() {
    let (mut ps, mut ts) = engines();
    let u = user("owner-28", UserRole::User);
    let p = ps.create(&u, "Watch".to_string(), 1).unwrap();
    let missing = ts.get_in_progress(&u, &p.id, "Watch", 50);
    assert!(matches!(
        missing,
        Err(TimeTrackError::NoInProgressTimeTracking(ref n)) if n == "Watch"
    ));

    ts.start(&mut ps, &u, &p.id, None, 100).unwrap();
    let live = ts.get_in_progress(&u, &p.id, "Watch", 130).unwrap();
    assert_eq!(live.total_duration, 30);
    assert_eq!(live.status, TimeTrackStatus::InProgress);
}

#[test]
fn invariants_hold_after_mixed_sequence() {
    // Invariant checks at the store level: Active exactly when one entry is
    // in progress, and the aggregate equals the sum of finished durations.
    let (mut ps, mut ts) = engines();
    let u = user("owner-29", UserRole::User);
    let p = ps.create(&u, "Mixed".to_string(), 1).unwrap();

    ts.start(&mut ps, &u, &p.id, None, 100).unwrap();
    ts.stop(&mut ps, &u, &p.id, 150).unwrap();
    ts.create(&mut ps, &u, p.id.clone(), 200, 260, None, 300)
        .unwrap();
    let (entries, _) = ts.get_all(&ps, &u, &p.id, 300).unwrap();
    let in_progress = entries
        .iter()
        .filter(|e| e.status == TimeTrackStatus::InProgress)
        .count();
    let finished_total: u64 = entries
        .iter()
        .filter(|e| e.status == TimeTrackStatus::Finished)
        .map(|e| e.total_duration)
        .sum();
    let stored = ps.projects.iter().find(|q| q.id == p.id).unwrap();
    assert_eq!(stored.status, ProjectStatus::Inactive);
    assert_eq!(in_progress, 0);
    assert_eq!(stored.total_duration, finished_total);
    assert_eq!(stored.total_duration, 110);

    ts.start(&mut ps, &u, &p.id, None, 400).unwrap();
    let stored = ps.projects.iter().find(|q| q.id == p.id).unwrap();
    assert_eq!(stored.status, ProjectStatus::Active);
    let live = ts
        .entries
        .iter()
        .filter(|e| e.project_id == p.id && e.status == TimeTrackStatus::InProgress)
        .count();
    assert_eq!(live, 1);
    assert_eq!(stored.total_duration, 110, "live time is never persisted");
}

#[test]
fn aggregate_overflow_is_rejected_without_change() {
    let (mut ps, mut ts) = engines();
    let u = user("owner-30", UserRole::User);
    let p = ps.create(&u, "Huge".to_string(), 1).unwrap();
    ts.create(&mut ps, &u, p.id.clone(), 0, u64::MAX, None, 10)
        .unwrap();
    assert_eq!(
        ps.projects.iter().find(|q| q.id == p.id).unwrap().total_duration,
        u64::MAX
    );
    let overflow = ts.create(&mut ps, &u, p.id.clone(), 0, 1, None, 20);
    assert!(matches!(overflow, Err(TimeTrackError::Unknown(_))));
    assert_eq!(ts.entries.len(), 1);
    assert_eq!(
        ps.projects.iter().find(|q| q.id == p.id).unwrap().total_duration,
        u64::MAX
    );
}

#[test]
fn aggregate_underflow_is_rejected_without_change() {
    let (mut ps, mut ts) = engines();
    let u = user("owner-31", UserRole::User);
    let p = ps.create(&u, "Skewed".to_string(), 1).unwrap();
    let (entry, _) = ts
        .create(&mut ps, &u, p.id.clone(), 0, 100, None, 10)
        .unwrap();

    // Break the aggregate through the generic persist, then try to delete a
    // finished entry larger than the stored total.
    let mut broken = ps.projects.iter().find(|q| q.id == p.id).unwrap().clone();
    broken.total_duration = 10;
    ps.update(&u, &broken, 20).unwrap();

    let r = ts.delete(&mut ps, &u, p.id.clone(), entry.id.clone(), 30);
    assert!(matches!(r, Err(TimeTrackError::Unknown(_))));
    assert_eq!(ts.entries.len(), 1);
}

#[test]
fn error_messages_name_their_subject() {
    let e = TimeTrackError::NoInProgressTimeTracking("Quiet".to_string());
    assert_eq!(
        e.message(),
        "No time tracking is in progress for project 'Quiet'."
    );
    let e = TimeTrackError::AlreadyTrackingTime("Busy".to_string());
    assert_eq!(
        e.message(),
        "Time tracking is already in progress on project 'Busy'"
    );
    let e = ProjectError::ProjectExistsWithSameName("X".to_string());
    assert_eq!(e.message(), "Project exists with same name: X");
    let e = ProjectError::TimeTrackError(TimeTrackError::NotFound);
    assert_eq!(e.message(), "TimeTrack error: Time tracking not found");
}
