use command_runner::security::{
    contains_shell_injection, contains_traversal, find_blocked_path_impl, is_dangerous_env_var,
    is_flag_like, validate_absolute_path, validate_env_var, validate_no_traversal, validate_not_flag,
    validate_path_with_working_dir_impl, ValidationError,
};

#[test]
fn test_contains_shell_injection_safe_strings() {
    assert!(!contains_shell_injection("hello"));
    assert!(!contains_shell_injection("path/to/file.txt"));
}

#[test]
fn test_contains_shell_injection_detects_semicolon() {
    assert!(contains_shell_injection("; echo hello"));
}

#[test]
fn test_contains_shell_injection_detects_pipe() {
    assert!(contains_shell_injection("| cat /etc/passwd"));
}

#[test]
fn test_contains_shell_injection_detects_backtick() {
    assert!(contains_shell_injection("`whoami`"));
}

#[test]
fn test_contains_shell_injection_detects_dollar() {
    assert!(contains_shell_injection("$(whoami)"));
}

#[test]
fn test_find_blocked_path_blocks_exact() {
    let blocked = vec!["/blocked".to_string()];
    assert_eq!(
        find_blocked_path_impl("/blocked", None, &blocked),
        Some("/blocked".to_string())
    );
}

#[test]
fn test_find_blocked_path_blocks_subpath() {
    let blocked = vec!["/blocked".to_string()];
    assert_eq!(
        find_blocked_path_impl("/blocked/subdir", None, &blocked),
        Some("/blocked".to_string())
    );
}

#[test]
fn test_find_blocked_path_blocks_also_blocked_exact() {
    let blocked = vec!["/also-blocked".to_string()];
    assert_eq!(
        find_blocked_path_impl("/also-blocked", None, &blocked),
        Some("/also-blocked".to_string())
    );
}

#[test]
fn test_find_blocked_path_blocks_also_blocked_subpath() {
    let blocked = vec!["/also-blocked".to_string()];
    assert_eq!(
        find_blocked_path_impl("/also-blocked/subdir", None, &blocked),
        Some("/also-blocked".to_string())
    );
}

// Null byte detection
#[test]
fn test_contains_shell_injection_detects_null_byte() {
    assert!(contains_shell_injection("file\0.txt"));
}

// Flag injection tests
#[test]
fn test_is_flag_like_detects_single_dash() {
    assert!(is_flag_like("-a"));
    assert!(is_flag_like("-verbose"));
}

#[test]
fn test_is_flag_like_detects_double_dash() {
    assert!(is_flag_like("--help"));
    assert!(is_flag_like("--version"));
}

#[test]
fn test_is_flag_like_allows_bare_dashes() {
    // Single dash (stdin) and double dash (end of options) are allowed
    assert!(!is_flag_like("-"));
    assert!(!is_flag_like("--"));
}

#[test]
fn test_is_flag_like_allows_normal_paths() {
    assert!(!is_flag_like("file.txt"));
    assert!(!is_flag_like("/path/to/file"));
    assert!(!is_flag_like("path/with-dash/file"));
}

#[test]
fn test_validate_not_flag_rejects_flags() {
    assert!(matches!(
        validate_not_flag("--help"),
        Err(ValidationError::FlagInjection(_))
    ));
    assert!(matches!(
        validate_not_flag("-rf"),
        Err(ValidationError::FlagInjection(_))
    ));
}

#[test]
fn test_validate_not_flag_allows_normal_args() {
    assert!(validate_not_flag("file.txt").is_ok());
    assert!(validate_not_flag("/path/to/file").is_ok());
    assert!(validate_not_flag(".").is_ok());
}

// Dangerous env var tests
#[test]
fn test_is_dangerous_env_var_blocks_ld_preload() {
    assert!(is_dangerous_env_var("LD_PRELOAD"));
    assert!(is_dangerous_env_var("ld_preload")); // case insensitive
}

#[test]
fn test_is_dangerous_env_var_blocks_path() {
    assert!(is_dangerous_env_var("PATH"));
}

#[test]
fn test_is_dangerous_env_var_blocks_dyld() {
    assert!(is_dangerous_env_var("DYLD_INSERT_LIBRARIES"));
    assert!(is_dangerous_env_var("DYLD_LIBRARY_PATH"));
}

#[test]
fn test_is_dangerous_env_var_blocks_bash_func_prefix() {
    assert!(is_dangerous_env_var("BASH_FUNC_foo"));
}

#[test]
fn test_is_dangerous_env_var_allows_safe_vars() {
    assert!(!is_dangerous_env_var("MY_VAR"));
    assert!(!is_dangerous_env_var("FOO"));
    assert!(!is_dangerous_env_var("DEBUG"));
}

#[test]
fn test_validate_env_var_rejects_dangerous_names() {
    assert!(matches!(
        validate_env_var("LD_PRELOAD", "/evil/lib.so"),
        Err(ValidationError::DangerousEnvVar(_))
    ));
    assert!(matches!(
        validate_env_var("PATH", "/evil/bin"),
        Err(ValidationError::DangerousEnvVar(_))
    ));
}

#[test]
fn test_validate_env_var_rejects_shell_injection_in_name() {
    assert!(matches!(
        validate_env_var("VAR;rm", "value"),
        Err(ValidationError::ShellInjection(_))
    ));
}

#[test]
fn test_validate_env_var_rejects_shell_injection_in_value() {
    assert!(matches!(
        validate_env_var("MY_VAR", "$(whoami)"),
        Err(ValidationError::ShellInjection(_))
    ));
}

#[test]
fn test_validate_env_var_allows_safe_vars() {
    assert!(validate_env_var("MY_VAR", "safe_value").is_ok());
    assert!(validate_env_var("DEBUG", "true").is_ok());
}

// Path traversal tests
#[test]
fn test_contains_traversal_detects_parent_dir() {
    assert!(contains_traversal("../secret"));
    assert!(contains_traversal("/tmp/../etc"));
    assert!(contains_traversal("foo/bar/../baz"));
}

#[test]
fn test_contains_traversal_allows_safe_paths() {
    assert!(!contains_traversal("/tmp/file"));
    assert!(!contains_traversal("relative/path"));
    assert!(!contains_traversal("."));
}

#[test]
fn test_validate_no_traversal_rejects_parent_dir() {
    assert!(matches!(
        validate_no_traversal("../secret"),
        Err(ValidationError::PathTraversal(_))
    ));
    assert!(matches!(
        validate_no_traversal("/tmp/../etc"),
        Err(ValidationError::PathTraversal(_))
    ));
}

#[test]
fn test_validate_no_traversal_allows_safe_paths() {
    assert!(validate_no_traversal("/tmp/file").is_ok());
    assert!(validate_no_traversal("relative/path").is_ok());
    assert!(validate_no_traversal(".").is_ok());
}

// Absolute path tests
#[test]
fn test_validate_absolute_path_rejects_relative() {
    assert!(matches!(
        validate_absolute_path("relative/path"),
        Err(ValidationError::RelativeWorkingDir(_))
    ));
    assert!(matches!(
        validate_absolute_path("./current"),
        Err(ValidationError::RelativeWorkingDir(_))
    ));
}

#[test]
fn test_validate_absolute_path_allows_absolute() {
    assert!(validate_absolute_path("/tmp").is_ok());
    assert!(validate_absolute_path("/home/user/dir").is_ok());
}

// Tests for validate_path_with_working_dir_impl
#[test]
fn test_validate_path_with_working_dir_rejects_relative_working_dir() {
    let blocked: Vec<String> = vec![];
    assert!(matches!(
        validate_path_with_working_dir_impl(".", "relative/dir", &blocked),
        Err(ValidationError::RelativeWorkingDir(_))
    ));
}

#[test]
fn every_metacharacter_is_refused() {
    for c in [
        ';', '|', '&', '$', '`', '(', ')', '{', '}', '[', ']', '<', '>', '\n', '\r', '\'', '"', '\\',
        '*', '?', '!', '#', '\0',
    ] {
        let arg = format!("a{}b", c);
        assert!(contains_shell_injection(&arg));
        assert_eq!(
            command_runner::security::validate_argument(&arg),
            Err(ValidationError::ShellInjection(arg.clone()))
        );
    }
    assert!(command_runner::security::validate_argument("plain-name_1.txt ~ % ^ = + , @").is_ok());
    assert!(command_runner::security::validate_argument("").is_ok());
}

#[test]
fn flag_error_carries_argument() {
    assert_eq!(validate_not_flag("-x"), Err(ValidationError::FlagInjection("-x".to_string())));
    assert!(validate_not_flag("-").is_ok());
    assert!(validate_not_flag("--").is_ok());
    assert!(validate_not_flag("").is_ok());
    assert!(is_flag_like("---"));
}

#[test]
fn traversal_anywhere_is_refused() {
    assert_eq!(validate_no_traversal("a.."), Err(ValidationError::PathTraversal("a..".to_string())));
    assert!(contains_traversal(".."));
    assert!(!contains_traversal("./a/.b/."));
}

#[test]
fn absolute_path_error_carries_path() {
    assert_eq!(
        validate_absolute_path(""),
        Err(ValidationError::RelativeWorkingDir(String::new()))
    );
}

#[test]
fn env_names_match_case_insensitively_and_by_prefix() {
    assert!(is_dangerous_env_var("ld_preload"));
    assert!(is_dangerous_env_var("Ld_Library_Path"));
    assert!(is_dangerous_env_var("BASH_FUNC_anything"));
    assert!(is_dangerous_env_var("bash_func_x%%"));
    assert!(is_dangerous_env_var("PATHX"));
    assert!(is_dangerous_env_var("ps4"));
    assert!(!is_dangerous_env_var("MYPATH"));
    assert!(!is_dangerous_env_var("PS3"));
    assert_eq!(
        validate_env_var("ld_preload", "x"),
        Err(ValidationError::DangerousEnvVar("ld_preload".to_string()))
    );
    assert_eq!(
        validate_env_var("A", "x;y"),
        Err(ValidationError::ShellInjection("x;y".to_string()))
    );
    assert_eq!(
        validate_env_var("A|B", "x;y"),
        Err(ValidationError::ShellInjection("A|B".to_string()))
    );
}

#[test]
fn blocked_entry_needs_following_separator() {
    let blocked = vec!["/blocked".to_string()];
    assert_eq!(find_blocked_path_impl("/blocked/x", None, &blocked), Some("/blocked".to_string()));
    assert_eq!(find_blocked_path_impl("/blocked2/x", None, &blocked), None);
    assert_eq!(find_blocked_path_impl("/blockedx", None, &blocked), None);
}

#[test]
fn first_blocking_entry_wins() {
    let blocked = vec!["/zz-first/a".to_string(), "/zz-first".to_string()];
    assert_eq!(
        command_runner::security::first_blocking_entry("/zz-first/a/b", &blocked),
        Some("/zz-first/a".to_string())
    );
    assert_eq!(
        command_runner::security::first_blocking_entry("/zz-first/b", &blocked),
        Some("/zz-first".to_string())
    );
    assert_eq!(command_runner::security::first_blocking_entry("/zz", &blocked), None);
}

#[test]
fn relative_paths_resolve_against_current_dir() {
    let blocked = vec!["/zz-nonexistent-base/secret".to_string()];
    assert_eq!(
        find_blocked_path_impl("secret/file", Some("/zz-nonexistent-base"), &blocked),
        Some("/zz-nonexistent-base/secret".to_string())
    );
    assert_eq!(find_blocked_path_impl("secret/file", None, &blocked), None);
    assert_eq!(
        command_runner::security::resolve_path("/zz-nonexistent-base/", "secret"),
        "/zz-nonexistent-base/secret"
    );
    assert_eq!(command_runner::security::resolve_path("/base", "/abs"), "/abs");
    assert_eq!(command_runner::security::resolve_path("/base", ""), "/base/");
}

#[test]
fn working_dir_resolution_finds_blocked_location() {
    let blocked = vec!["/zz-nonexistent-wd/blocked".to_string()];
    assert_eq!(
        validate_path_with_working_dir_impl("blocked", "/zz-nonexistent-wd", &blocked),
        Err(ValidationError::BlockedPath("/zz-nonexistent-wd/blocked".to_string()))
    );
    assert!(validate_path_with_working_dir_impl("safe", "/zz-nonexistent-wd", &blocked).is_ok());
    assert_eq!(
        validate_path_with_working_dir_impl("/zz-nonexistent-wd/blocked/x", "/elsewhere", &blocked),
        Err(ValidationError::BlockedPath("/zz-nonexistent-wd/blocked".to_string()))
    );
}

#[test]
fn setting_is_split_on_semicolons_and_trimmed() {
    let entries = command_runner::security::parse_blocked_paths("/etc; /root ;;/home/user/.ssh;");
    assert_eq!(entries, vec!["/etc".to_string(), "/root".to_string(), "/home/user/.ssh".to_string()]);
    assert!(command_runner::security::parse_blocked_paths("").is_empty());
    let policy = command_runner::security::PathPolicy::from_setting("/zz-a;/zz-b", None);
    assert_eq!(policy.blocked_paths, vec!["/zz-a".to_string(), "/zz-b".to_string()]);
    assert_eq!(
        command_runner::security::validate_path("/zz-b/c", &policy),
        Err(ValidationError::BlockedPath("/zz-b".to_string()))
    );
    assert!(command_runner::security::validate_path("relative", &policy).is_ok());
}

#[test]
fn messages_name_the_offending_value() {
    let m = ValidationError::ShellInjection("a;b".to_string()).message();
    assert_eq!(
        m,
        "Error: 'a;b' contains invalid characters. Forbidden characters: ; | & $ ` ( ) { } [ ] < > ' \" \\ * ? ! #. Use grep_pattern, head, tail, sort, or unique parameters to filter/transform output instead of shell operators."
    );
    assert_eq!(
        ValidationError::BlockedPath("/etc".to_string()).message(),
        "Error: Reading path '/etc' is not allowed"
    );
    assert_eq!(
        ValidationError::FlagInjection("-x".to_string()).message(),
        "Error: '-x' looks like a flag (starts with '-'). Arguments cannot start with '-' to prevent flag injection."
    );
    assert_eq!(
        ValidationError::DangerousEnvVar("PATH".to_string()).message(),
        "Error: Setting environment variable 'PATH' is not allowed for security reasons."
    );
    assert_eq!(
        ValidationError::PathTraversal("../x".to_string()).message(),
        "Error: Path '../x' contains '..', which is not allowed for security reasons."
    );
    assert_eq!(
        ValidationError::RelativeWorkingDir("dir".to_string()).message(),
        "Error: working_dir 'dir' must be an absolute path (starting with '/')."
    );
    assert_eq!(
        ValidationError::DisallowedSubcommand {
            subcommand: "push".to_string(),
            allowed: "status, add".to_string()
        }
        .message(),
        "Error: Subcommand 'push' is not allowed. Allowed subcommands: status, add"
    );
}

#[test]
fn canonical_form_is_preferred_over_the_resolved_path() {
    let blocked = vec!["/x".to_string(), "/a".to_string(), "/a/b".to_string()];
    assert_eq!(command_runner::security::blocked_entry_for(None, "/a/b", &blocked), Some("/a".to_string()));
    assert_eq!(command_runner::security::blocked_entry_for(Some("/x/y".to_string()), "/a/b", &blocked), Some("/x".to_string()));
    assert_eq!(command_runner::security::blocked_entry_for(Some("/safe".to_string()), "/a/b", &blocked), None);
    assert_eq!(command_runner::security::blocked_entry_for(None, "/blocked2/x", &["/blocked".to_string()]), None);
}

#[test]
fn setting_entries_lose_unicode_white_space() {
    let entries = command_runner::security::parse_blocked_paths("\u{3000}/a\u{a0}\t;\u{2009}/b c ");
    assert_eq!(entries, vec!["/a".to_string(), "/b c".to_string()]);
}
