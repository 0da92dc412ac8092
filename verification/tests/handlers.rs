use openleaf_core::access::{
    can_delete_comment, can_remove_collaborator, collaborator_upsert, email_taken, is_owner,
    project_access_decision, validate_role, UpsertAction,
};
use openleaf_core::auth::{
    auth_user_of_claims, bearer_token, hash_password, token_claims, validate_registration,
    verify_password, RegisterRequest, TOKEN_LIFETIME_SECS,
};
use openleaf_core::comments::validate_comment;
use openleaf_core::config::Config;
use openleaf_core::error::AppError;
use openleaf_core::files::{
    merge_file_update, needs_rename, path_conflict, reject_folder_content, validate_file_name,
    UpdateFileRequest,
};
use openleaf_core::projects::{owner_only, validate_collaborator_target, validate_project_name};
use openleaf_core::storage::StorageService;

fn register(email: &str, name: &str, password: &str) -> RegisterRequest {
    RegisterRequest {
        email: email.to_string(),
        name: name.to_string(),
        password: password.to_string(),
    }
}

#[test]
fn registration_validation_rules() {
    assert!(validate_registration(&register("a@b.c", "Ann", "longenough")).is_ok());
    assert!(matches!(
        validate_registration(&register("", "Ann", "longenough")),
        Err(AppError::Validation(_))
    ));
    assert!(matches!(
        validate_registration(&register("nobody", "Ann", "longenough")),
        Err(AppError::Validation(_))
    ));
    assert!(matches!(
        validate_registration(&register("a@b.c", "", "longenough")),
        Err(AppError::Validation(_))
    ));
    assert!(matches!(
        validate_registration(&register("a@b.c", "Ann", "short")),
        Err(AppError::Validation(_))
    ));
    // Exactly eight characters pass.
    assert!(validate_registration(&register("a@b.c", "Ann", "12345678")).is_ok());
}

#[test]
fn password_hash_round_trip() {
    let hash = match hash_password("hunter22") {
        Ok(h) => h,
        Err(_) => panic!("hashing failed"),
    };
    assert_ne!(hash, "hunter22");
    assert!(matches!(verify_password("hunter22", &hash), Ok(true)));
    assert!(matches!(verify_password("hunter23", &hash), Ok(false)));
    assert!(matches!(
        verify_password("hunter22", "not-a-phc-string"),
        Err(AppError::Internal(_))
    ));
}

#[test]
fn token_claims_carry_identity_and_expiry() {
    let c = token_claims("u1", "a@b.c", "Ann", 1_000_000);
    assert_eq!(c.sub, "u1");
    assert_eq!(c.email, "a@b.c");
    assert_eq!(c.name, "Ann");
    assert_eq!(c.exp, 1_000_000 + TOKEN_LIFETIME_SECS);
    let u = auth_user_of_claims(c);
    assert_eq!(u.id, "u1");
    assert_eq!(u.email, "a@b.c");
    assert_eq!(u.name, "Ann");
}

#[test]
fn bearer_extraction() {
    assert_eq!(bearer_token("Bearer abc.def"), Some("abc.def"));
    assert_eq!(bearer_token("Bearer "), Some(""));
    assert_eq!(bearer_token("bearer abc"), None);
    assert_eq!(bearer_token("Basic abc"), None);
    assert_eq!(bearer_token(""), None);
}

#[test]
fn access_decisions() {
    assert!(project_access_decision(1).is_ok());
    assert!(matches!(project_access_decision(0), Err(AppError::NotFound(_))));
    assert!(is_owner(&"u1".to_string(), &"u1".to_string()));
    assert!(!is_owner(&"u1".to_string(), &"u2".to_string()));
    assert!(can_delete_comment(&"a".to_string(), &"a".to_string(), 0));
    assert!(can_delete_comment(&"a".to_string(), &"b".to_string(), 1));
    assert!(!can_delete_comment(&"a".to_string(), &"b".to_string(), 0));
    assert!(can_remove_collaborator(
        &"owner".to_string(),
        &"owner".to_string(),
        &"x".to_string()
    ));
    assert!(can_remove_collaborator(
        &"owner".to_string(),
        &"self".to_string(),
        &"self".to_string()
    ));
    assert!(!can_remove_collaborator(
        &"owner".to_string(),
        &"other".to_string(),
        &"x".to_string()
    ));
    assert!(validate_role(&"editor".to_string()));
    assert!(validate_role(&"viewer".to_string()));
    assert!(!validate_role(&"admin".to_string()));
    assert!(email_taken(1));
    assert!(!email_taken(0));
    assert_eq!(collaborator_upsert(2), UpsertAction::UpdateRole);
    assert_eq!(collaborator_upsert(0), UpsertAction::InsertRow);
}

#[test]
fn project_and_file_validation() {
    assert!(validate_project_name("thesis").is_ok());
    assert!(matches!(validate_project_name("   "), Err(AppError::Validation(_))));
    assert!(validate_file_name("main.tex").is_ok());
    assert!(matches!(validate_file_name("\t"), Err(AppError::Validation(_))));
    assert!(path_conflict(0).is_ok());
    assert!(matches!(path_conflict(1), Err(AppError::Validation(_))));
    assert!(matches!(
        validate_collaborator_target(&"me".to_string(), &"me".to_string()),
        Err(AppError::Validation(_))
    ));
    assert!(validate_collaborator_target(&"you".to_string(), &"me".to_string()).is_ok());
    assert!(owner_only(&"u1".to_string(), &"u1".to_string(), "delete this project").is_ok());
    assert!(matches!(
        owner_only(&"u1".to_string(), &"u2".to_string(), "delete this project"),
        Err(AppError::Forbidden(_))
    ));
}

#[test]
fn comment_validation() {
    assert!(validate_comment("looks wrong", 1, 1).is_ok());
    assert!(validate_comment("x", 3, 7).is_ok());
    assert!(matches!(validate_comment("  ", 1, 2), Err(AppError::Validation(_))));
    assert!(matches!(validate_comment("x", 0, 2), Err(AppError::Validation(_))));
    assert!(matches!(validate_comment("x", 3, 2), Err(AppError::Validation(_))));
}

#[test]
fn file_update_merging() {
    let (name, path) = merge_file_update(
        "old.tex".to_string(),
        "dir/old.tex".to_string(),
        UpdateFileRequest { name: Some("new.tex".to_string()), path: None },
    );
    assert_eq!(name, "new.tex");
    assert_eq!(path, "dir/old.tex");
    let (name, path) = merge_file_update(
        "old.tex".to_string(),
        "dir/old.tex".to_string(),
        UpdateFileRequest { name: None, path: Some("dir/new.tex".to_string()) },
    );
    assert_eq!(name, "old.tex");
    assert_eq!(path, "dir/new.tex");
    assert!(needs_rename(&"a".to_string(), &"b".to_string()));
    assert!(!needs_rename(&"a".to_string(), &"a".to_string()));
    assert!(reject_folder_content(false).is_ok());
    assert!(matches!(reject_folder_content(true), Err(AppError::BadRequest(_))));
}

#[test]
fn config_defaults_fill_missing_values() {
    let c = Config::with_defaults(None, None, None, None);
    assert_eq!(c.port, 3000);
    assert_eq!(c.database_url, "sqlite:./data/openleaf.db?mode=rwc");
    assert_eq!(c.storage_path, "./data/projects");
    assert_eq!(c.jwt_secret, "development-secret-change-in-production");
    let c = Config::with_defaults(
        Some(8080),
        Some("sqlite:x.db".to_string()),
        Some("/srv/projects".to_string()),
        Some("s3cret".to_string()),
    );
    assert_eq!(c.port, 8080);
    assert_eq!(c.database_url, "sqlite:x.db");
    assert_eq!(c.storage_path, "/srv/projects");
    assert_eq!(c.jwt_secret, "s3cret");
}

#[test]
fn storage_paths_join_with_separator() {
    let s = StorageService::new("./data/projects".to_string());
    assert_eq!(s.project_path("p1"), "./data/projects/p1");
    assert_eq!(s.file_path("p1", "chapters/one.tex"), "./data/projects/p1/chapters/one.tex");
}

#[test]
fn error_classes_have_stable_names() {
    assert_eq!(AppError::Validation("m".to_string()).class_name(), "validation");
    assert_eq!(AppError::NotFound("m".to_string()).class_name(), "not_found");
    assert_eq!(AppError::Unauthorized.class_name(), "unauthorized");
    assert_eq!(AppError::Forbidden("m".to_string()).class_name(), "forbidden");
    assert_eq!(AppError::BadRequest("m".to_string()).class_name(), "bad_request");
    assert_eq!(AppError::Internal("m".to_string()).class_name(), "internal");
}
