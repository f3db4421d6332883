use command_runner::security::{
    find_blocked_path, find_blocked_path_impl, validate_path, validate_path_with_working_dir_impl,
    PathPolicy, ValidationError,
};

fn unconfigured() -> PathPolicy {
    PathPolicy::from_setting("", None)
}

#[test]
fn test_find_blocked_path_allows_safe_paths() {
    let temp_dir = tempfile::TempDir::new().unwrap();
    assert!(find_blocked_path(temp_dir.path().to_str().unwrap(), &unconfigured()).is_none());
}

#[test]
fn test_validate_path_ok_for_allowed() {
    let temp_dir = tempfile::TempDir::new().unwrap();
    assert!(validate_path(temp_dir.path().to_str().unwrap(), &unconfigured()).is_ok());
}

#[test]
fn test_blocked_path_with_temp_dir() {
    let temp_dir = tempfile::TempDir::new().unwrap();
    let blocked_path = temp_dir.path().canonicalize().unwrap();
    let blocked_path_str = blocked_path.to_string_lossy().to_string();
    let blocked = vec![blocked_path_str.clone()];
    assert_eq!(
        find_blocked_path_impl(&blocked_path_str, None, &blocked),
        Some(blocked_path_str.clone())
    );
}

#[test]
fn test_blocked_path_subdir_with_temp_dir() {
    let temp_dir = tempfile::TempDir::new().unwrap();
    let blocked_path = temp_dir.path().canonicalize().unwrap();
    let blocked_path_str = blocked_path.to_string_lossy().to_string();
    let blocked = vec![blocked_path_str.clone()];
    let subpath = format!("{}/subdir/file.txt", blocked_path_str);
    assert_eq!(find_blocked_path_impl(&subpath, None, &blocked), Some(blocked_path_str));
}

#[test]
fn test_not_blocked_when_not_in_list() {
    let temp_dir = tempfile::TempDir::new().unwrap();
    let safe_path = temp_dir.path().canonicalize().unwrap();
    let safe_path_str = safe_path.to_string_lossy().to_string();
    let blocked = vec!["/some/other/path".to_string()];
    assert!(find_blocked_path_impl(&safe_path_str, None, &blocked).is_none());
}

#[test]
fn dot_components_resolve_on_disk() {
    let temp_dir = tempfile::TempDir::new().unwrap();
    let real = temp_dir.path().canonicalize().unwrap();
    let real_str = real.to_string_lossy().to_string();
    let blocked = vec![real_str.clone()];
    let dotted = format!("{}/./.", real_str);
    assert_eq!(find_blocked_path_impl(&dotted, None, &blocked), Some(real_str.clone()));
    let cwd_form = find_blocked_path_impl(".", Some(&real_str), &blocked);
    assert_eq!(cwd_form, Some(real_str));
}

fn subdir(parent: &std::path::Path, name: &str) -> tempfile::TempDir {
    tempfile::Builder::new().prefix(name).rand_bytes(0).tempdir_in(parent).unwrap()
}

#[test]
fn test_validate_path_with_working_dir_blocks_relative_path_to_blocked() {
    let temp_dir = tempfile::TempDir::new().unwrap();
    let blocked_dir = subdir(temp_dir.path(), "blocked");
    let blocked_path = blocked_dir.path().canonicalize().unwrap();
    let blocked_path_str = blocked_path.to_string_lossy().to_string();
    let blocked = vec![blocked_path_str.clone()];
    let working_dir = temp_dir.path().canonicalize().unwrap();
    let working_dir_str = working_dir.to_string_lossy().to_string();
    assert!(matches!(
        validate_path_with_working_dir_impl("blocked", &working_dir_str, &blocked),
        Err(ValidationError::BlockedPath(_))
    ));
}

#[test]
fn test_validate_path_with_working_dir_allows_safe_relative_path() {
    let temp_dir = tempfile::TempDir::new().unwrap();
    let _safe_dir = subdir(temp_dir.path(), "safe");
    let blocked = vec!["/some/other/blocked/path".to_string()];
    let working_dir = temp_dir.path().canonicalize().unwrap();
    let working_dir_str = working_dir.to_string_lossy().to_string();
    assert!(validate_path_with_working_dir_impl("safe", &working_dir_str, &blocked).is_ok());
}

#[test]
fn test_validate_path_with_working_dir_absolute_path_ignores_working_dir() {
    let temp_dir = tempfile::TempDir::new().unwrap();
    let blocked_dir = subdir(temp_dir.path(), "blocked");
    let blocked_path = blocked_dir.path().canonicalize().unwrap();
    let blocked_path_str = blocked_path.to_string_lossy().to_string();
    let blocked = vec![blocked_path_str.clone()];
    assert!(matches!(
        validate_path_with_working_dir_impl(&blocked_path_str, "/some/other/dir", &blocked),
        Err(ValidationError::BlockedPath(_))
    ));
}
