use sitt::cli_support::{
    get_project_by_name, get_project_id_by_name, project_select_options, resolve_project_name,
    Config, ConfigError, ProjectError, ProjectSelectOption,
};
use sitt::db::DbError;
use sitt::dtos::{
    CreateProjectDto, CreateTimeTrackDto, CreateUserDto, NewProjectDto, StartTimeTrackDto,
};
use sitt::interval_seconds;
use sitt::project_model::Project;
use sitt::project_service::ProjectService;
use sitt::user_model::{User, UserRole};
use sitt::user_service::UserError;
use sitt::validation::{check_api_key_header, UserValidationError};

fn project_named(name: &str, owner: &str, now: u64) -> Project {
    let mut ps = ProjectService::new();
    let u = User {
        id: owner.to_string(),
        name: owner.to_string(),
        role: UserRole::User,
        api_key: None,
        created_at: 0,
        created_by: "tests".to_string(),
    };
    ps.create(&u, name.to_string(), now).unwrap()
}

#[test]
fn name_lengths_are_bounded() {
    assert!(!CreateProjectDto { name: "".to_string() }.validate());
    assert!(CreateProjectDto { name: "a".to_string() }.validate());
    assert!(CreateProjectDto {
        name: "a".repeat(25)
    }
    .validate());
    assert!(!CreateProjectDto {
        name: "a".repeat(26)
    }
    .validate());
    assert!(NewProjectDto { name: "ok".to_string() }.validate());
    assert!(!NewProjectDto { name: "".to_string() }.validate());
    assert!(CreateUserDto {
        name: "someone".to_string(),
        role: UserRole::User
    }
    .validate());
    assert!(!CreateUserDto {
        name: "".to_string(),
        role: UserRole::Admin
    }
    .validate());
}

#[test]
fn comment_length_is_bounded() {
    assert!(StartTimeTrackDto { comment: None }.validate());
    assert!(StartTimeTrackDto {
        comment: Some("x".repeat(1000))
    }
    .validate());
    assert!(!StartTimeTrackDto {
        comment: Some("x".repeat(1001))
    }
    .validate());
}

#[test]
fn backdated_request_requires_uuid_project_id() {
    let good = CreateTimeTrackDto {
        project_id: "67e55044-10b1-426f-9247-bb680e5fe0c8".to_string(),
        started_at: 0,
        stopped_at: 10,
        comment: None,
    };
    assert!(good.validate());
    let bad = CreateTimeTrackDto {
        project_id: "not-a-uuid".to_string(),
        started_at: 0,
        stopped_at: 10,
        comment: None,
    };
    assert!(!bad.validate());
}

#[test]
fn api_key_header_rule() {
    assert_eq!(
        check_api_key_header(&vec![]),
        Err(UserValidationError::Missing)
    );
    assert_eq!(
        check_api_key_header(&vec!["a".repeat(32), "b".repeat(32)]),
        Err(UserValidationError::Invalid)
    );
    assert_eq!(
        check_api_key_header(&vec!["short".to_string()]),
        Err(UserValidationError::Invalid)
    );
    assert_eq!(check_api_key_header(&vec!["k".repeat(32)]), Ok(()));
}

#[test]
fn interval_is_clamped() {
    assert_eq!(interval_seconds(100, 225), 125);
    assert_eq!(interval_seconds(100, 100), 0);
    assert_eq!(interval_seconds(225, 100), 0);
}

#[test]
fn config_holds_its_values() {
    let c = Config::new("k".repeat(32), "https://sitt.example".to_string());
    assert_eq!(c.get_api_key(), "k".repeat(32));
    assert_eq!(c.get_url(), "https://sitt.example");
}

#[test]
fn resolve_prefers_the_argument() {
    assert_eq!(
        resolve_project_name(Some("given".to_string()), "selected".to_string()),
        "given"
    );
    assert_eq!(
        resolve_project_name(None, "selected".to_string()),
        "selected"
    );
}

#[test]
fn project_lookup_by_name() {
    let a = project_named("Alpha", "owner", 1);
    let b = project_named("Beta", "owner", 2);
    let projects = vec![a, b];
    assert_eq!(get_project_by_name(&projects, "Beta"), Some(1));
    assert_eq!(get_project_by_name(&projects, "Alpha"), Some(0));
    assert_eq!(get_project_by_name(&projects, "Gamma"), None);
}

#[test]
fn cached_id_lookup_by_name() {
    let cache = vec![
        ("id-1".to_string(), "Alpha".to_string()),
        ("id-2".to_string(), "Beta".to_string()),
    ];
    assert_eq!(get_project_id_by_name(&cache, "Beta"), Ok("id-2".to_string()));
    assert_eq!(
        get_project_id_by_name(&cache, "Gamma"),
        Err(ProjectError::NoProjectWithName("Gamma".to_string()))
    );
}

#[test]
fn selection_offers_names_by_status() {
    let mut ps = ProjectService::new();
    let mut ts = sitt::time_track_service::TimeTrackService::new();
    let u = User {
        id: "owner".to_string(),
        name: "owner".to_string(),
        role: UserRole::User,
        api_key: None,
        created_at: 0,
        created_by: "tests".to_string(),
    };
    let active = ps.create(&u, "Running".to_string(), 1).unwrap();
    ps.create(&u, "Paused".to_string(), 2).unwrap();
    ts.start(&mut ps, &u, &active.id, None, 10).unwrap();

    let everything = project_select_options(&ps.projects, ProjectSelectOption::Any);
    assert_eq!(everything, vec!["Running".to_string(), "Paused".to_string()]);
    let running = project_select_options(&ps.projects, ProjectSelectOption::Active);
    assert_eq!(running, vec!["Running".to_string()]);
    let paused = project_select_options(&ps.projects, ProjectSelectOption::InActive);
    assert_eq!(paused, vec!["Paused".to_string()]);
}

#[test]
fn storage_and_user_errors_render() {
    assert_eq!(DbError::NotFound.message(), "The item was not found");
    assert_eq!(
        DbError::Convertion {
            table: "projects".to_string(),
            id: "p-1".to_string()
        }
        .message(),
        "Conversion error in table 'projects' for id 'p-1'"
    );
    assert_eq!(DbError::Unknown("boom".to_string()).message(), "boom");
    assert_eq!(UserError::NotFound.message(), "User not found");
    assert_eq!(
        UserError::from_db_error(DbError::NotFound),
        UserError::NotFound
    );
    assert_eq!(
        ConfigError::InvalidConfig("bad toml".to_string()).message(),
        "The configuration file is invalid: bad toml"
    );
}
