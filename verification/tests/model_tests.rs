use std::str::FromStr;

use sitt::project_model::{Project, ProjectStatus};
use sitt::time_track_model::{TimeTrack, TimeTrackStatus};
use sitt::user_model::{User, UserRole};
use uuid::Uuid;

#[test]
fn test_project_status_display() {
    assert_eq!(
        ProjectStatus::Active.as_str(),
        "ACTIVE",
        "Expected ACTIVE but got {}",
        ProjectStatus::Active.as_str()
    );
    assert_eq!(
        ProjectStatus::Inactive.as_str(),
        "INACTIVE",
        "Expected INACTIVE but got {}",
        ProjectStatus::Inactive.as_str()
    );
}

#[test]
fn test_project_status_from_str() {
    assert_eq!(
        ProjectStatus::from_str("ACTIVE").unwrap(),
        ProjectStatus::Active,
        "Expected ProjectStatus::Active but got {:?}",
        ProjectStatus::from_str("ACTIVE")
    );
    assert_eq!(
        ProjectStatus::from_str("INACTIVE").unwrap(),
        ProjectStatus::Inactive,
        "Expected ProjectStatus::Inactive but got {:?}",
        ProjectStatus::from_str("INACTIVE")
    );
    assert!(
        ProjectStatus::from_str("UNKNOWN").is_err(),
        "Expected error for unrecognized status but got {:?}",
        ProjectStatus::from_str("UNKNOWN")
    );
}

#[test]
fn test_project_creation() {
    let project_name = "Test Project";
    let created_by = "Test User";
    let project = Project::new(project_name.to_string(), created_by);

    assert!(Uuid::from_str(&project.id).is_ok());
    assert_eq!(
        project.name, project_name,
        "Expected project name to be '{}' but got '{}'",
        project_name, project.name
    );
    assert_eq!(
        project.created_by, created_by,
        "Expected created_by to be '{}' but got '{}'",
        created_by, project.created_by
    );
    assert_eq!(
        project.status,
        ProjectStatus::Inactive,
        "Expected status to be 'Inactive' but got {:?}",
        project.status
    );
    assert_eq!(
        project.total_duration, 0,
        "Expected total_duration to be '0' but got {:?}",
        project.total_duration
    );
    assert!(
        project.modified_at.is_none(),
        "Expected modified_at to be 'None' but got {:?}",
        project.modified_at
    );
    assert!(
        project.modified_by.is_none(),
        "Expected modified_by to be 'None' but got {:?}",
        project.modified_by
    );
}

#[test]
fn test_time_track_status_display() {
    assert_eq!(
        TimeTrackStatus::InProgress.as_str(),
        "IN_PROGRESS",
        "Expected 'IN_PROGRESS', got '{}'",
        TimeTrackStatus::InProgress.as_str()
    );
    assert_eq!(
        TimeTrackStatus::Finished.as_str(),
        "FINISHED",
        "Expected 'FINISHED', got '{}'",
        TimeTrackStatus::Finished.as_str()
    );
}

#[test]
fn test_time_track_status_from_str() {
    assert_eq!(
        "IN_PROGRESS".parse::<TimeTrackStatus>().unwrap(),
        TimeTrackStatus::InProgress,
        "Expected 'TimeTrackStatus::InProgress', got '{:?}'",
        "IN_PROGRESS".parse::<TimeTrackStatus>().unwrap()
    );
    assert_eq!(
        "FINISHED".parse::<TimeTrackStatus>().unwrap(),
        TimeTrackStatus::Finished,
        "Expected 'TimeTrackStatus::Finished', got '{:?}'",
        "FINISHED".parse::<TimeTrackStatus>().unwrap()
    );

    assert!(
        "INVALID".parse::<TimeTrackStatus>().is_err(),
        "Expected 'Err', got '{:?}'",
        "INVALID".parse::<TimeTrackStatus>()
    );
}

#[test]
fn test_time_track_new() {
    let user = User::new("test", &UserRole::User, &Uuid::new_v4().to_string());
    let project_id = "proj_12345";
    let time_track = TimeTrack::new(project_id, &user, None);

    assert_eq!(
        time_track.project_id,
        project_id.to_string(),
        "Expected project_id '{}', got '{}'",
        project_id,
        time_track.project_id
    );
    assert_eq!(
        time_track.status,
        TimeTrackStatus::InProgress,
        "Expected status 'TimeTrackStatus::InProgress', got '{:?}'",
        time_track.status
    );
    assert_eq!(
        time_track.created_by, user.id,
        "Expected created_by '{}', got '{}'",
        user.id, time_track.created_by
    );
    assert!(
        time_track.stopped_at.is_none(),
        "Expected stopped_at 'None', got '{:?}'",
        time_track.stopped_at
    );
    assert_eq!(
        time_track.total_duration, 0,
        "Expected total_duration '0', got '{:?}'",
        time_track.total_duration
    );
}

#[test]
fn create_with_role_user() {
    let name = "test user";
    let role = UserRole::User;
    let created_by = "Some admin user";

    let user = User::new(name, &role, created_by);

    assert!(
        Uuid::from_str(&user.id).is_ok(),
        "Expected id to be a valid UUID v4, but was not."
    );
    assert_eq!(
        user.name, name,
        "Expected name to be '{}', but was '{}'.",
        name, user.name
    );
    assert_eq!(
        user.role,
        UserRole::User,
        "Expected role to be 'User', but was '{:?}'.",
        user.role
    );
    assert!(
        user.api_key.is_some(),
        "Expected the api_key to set but was None"
    );

    let api_key = user.api_key.unwrap();
    assert_eq!(
        api_key.len(),
        32,
        "Expected API key length to be 32, but was {}.",
        api_key.len()
    );
    assert_eq!(
        user.created_by, created_by,
        "Expected created_by to be '{}', but was '{}'.",
        created_by, user.created_by
    );
}

#[test]
fn create_with_role_admin() {
    let name = "test user";
    let role = UserRole::Admin;
    let created_by = "Some admin user";

    let user = User::new(name, &role, created_by);

    assert!(
        Uuid::from_str(&user.id).is_ok(),
        "Expected id to be a valid UUID v4, but was not."
    );
    assert_eq!(
        user.name, name,
        "Expected name to be '{}', but was '{}'.",
        name, user.name
    );
    assert_eq!(
        user.role,
        UserRole::Admin,
        "Expected role to be 'Admin', but was '{:?}'.",
        user.role
    );
    assert!(
        user.api_key.is_some(),
        "Expected the api_key to set but was None"
    );

    let api_key = user.api_key.unwrap();
    assert_eq!(
        api_key.len(),
        32,
        "Expected API key length to be 32, but was {}.",
        api_key.len()
    );
    assert_eq!(
        user.created_by, created_by,
        "Expected created_by to be '{}', but was '{}'.",
        user.created_by, created_by
    );
}

#[test]
fn api_key_is_alphanumeric() {
    let user = User::new("key check", &UserRole::User, "someone");
    let api_key = user.api_key.unwrap();
    assert!(api_key.chars().all(|c| c.is_ascii_alphanumeric()));
}

#[test]
fn user_role_names_round_trip() {
    assert_eq!(UserRole::Admin.as_str(), "ADMIN");
    assert_eq!(UserRole::User.as_str(), "USER");
    assert_eq!(UserRole::from_str("ADMIN"), Ok(UserRole::Admin));
    assert_eq!(UserRole::from_str("USER"), Ok(UserRole::User));
    assert!(UserRole::from_str("NEITHER").is_err());
}
