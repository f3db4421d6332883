//! Validation of request arguments: shell metacharacters, flag smuggling,
//! path traversal, blocked paths and dangerous environment variables.

use vstd::prelude::*;

use crate::text::{chars_of, first_index_of, has_prefix, lemma_first_index_after, starts_with_str, string_of};

verus! {

/// Forbidden characters as listed to the user.
pub const SHELL_INJECTION_CHARS_DISPLAY: &'static str = "; | & $ ` ( ) { } [ ] < > ' \" \\ * ? ! #";

/// Advice appended to a shell-injection message.
pub const TRANSFORM_HINT: &'static str =
    "Use grep_pattern, head, tail, sort, or unique parameters to filter/transform output instead of shell operators.";

/// Why a request was refused; each kind carries the offending value.
#[derive(Debug, PartialEq, Eq)]
pub enum ValidationError {
    ShellInjection(String),
    BlockedPath(String),
    FlagInjection(String),
    DangerousEnvVar(String),
    PathTraversal(String),
    RelativeWorkingDir(String),
    DisallowedSubcommand { subcommand: String, allowed: String },
}

/// The user-facing text of an error.
pub open spec fn message_of(e: ValidationError) -> Seq<char> {
    match e {
        ValidationError::ShellInjection(arg) => "Error: '"@ + arg@
            + "' contains invalid characters. Forbidden characters: "@
            + SHELL_INJECTION_CHARS_DISPLAY@ + ". "@ + TRANSFORM_HINT@,
        ValidationError::BlockedPath(path) => "Error: Reading path '"@ + path@ + "' is not allowed"@,
        ValidationError::FlagInjection(arg) => "Error: '"@ + arg@
            + "' looks like a flag (starts with '-'). Arguments cannot start with '-' to prevent flag injection."@,
        ValidationError::DangerousEnvVar(var) => "Error: Setting environment variable '"@ + var@
            + "' is not allowed for security reasons."@,
        ValidationError::PathTraversal(path) => "Error: Path '"@ + path@
            + "' contains '..', which is not allowed for security reasons."@,
        ValidationError::RelativeWorkingDir(dir) => "Error: working_dir '"@ + dir@
            + "' must be an absolute path (starting with '/')."@,
        ValidationError::DisallowedSubcommand { subcommand, allowed } => "Error: Subcommand '"@
            + subcommand@ + "' is not allowed. Allowed subcommands: "@ + allowed@,
    }
}

fn surround(a: &str, b: &str, c: &str) -> (r: String)
    ensures
        r@ == a@ + b@ + c@,
{
    let mut s = String::from_str(a);
    s.append(b);
    s.append(c);
    s
}

impl ValidationError {
    /// The text shown to the caller for this error.
    pub fn message(&self) -> (r: String)
        ensures
            r@ == message_of(*self),
    {
        match self {
            ValidationError::ShellInjection(arg) => {
                let mut s = surround(
                    "Error: '",
                    arg.as_str(),
                    "' contains invalid characters. Forbidden characters: ",
                );
                s.append(SHELL_INJECTION_CHARS_DISPLAY);
                s.append(". ");
                s.append(TRANSFORM_HINT);
                s
            },
            ValidationError::BlockedPath(path) => surround(
                "Error: Reading path '",
                path.as_str(),
                "' is not allowed",
            ),
            ValidationError::FlagInjection(arg) => surround(
                "Error: '",
                arg.as_str(),
                "' looks like a flag (starts with '-'). Arguments cannot start with '-' to prevent flag injection.",
            ),
            ValidationError::DangerousEnvVar(var) => surround(
                "Error: Setting environment variable '",
                var.as_str(),
                "' is not allowed for security reasons.",
            ),
            ValidationError::PathTraversal(path) => surround(
                "Error: Path '",
                path.as_str(),
                "' contains '..', which is not allowed for security reasons.",
            ),
            ValidationError::RelativeWorkingDir(dir) => surround(
                "Error: working_dir '",
                dir.as_str(),
                "' must be an absolute path (starting with '/').",
            ),
            ValidationError::DisallowedSubcommand { subcommand, allowed } => {
                let mut s = surround(
                    "Error: Subcommand '",
                    subcommand.as_str(),
                    "' is not allowed. Allowed subcommands: ",
                );
                s.append(allowed.as_str());
                s
            },
        }
    }
}

/// A character with meaning to a command shell.
pub open spec fn is_shell_meta(c: char) -> bool {
    c == ';' || c == '|' || c == '&' || c == '$' || c == '`' || c == '(' || c == ')' || c == '{'
        || c == '}' || c == '[' || c == ']' || c == '<' || c == '>' || c == '\n' || c == '\r'
        || c == '\'' || c == '"' || c == '\\' || c == '*' || c == '?' || c == '!' || c == '#'
        || c == '\0'
}

/// Whether `s` holds a shell metacharacter.
pub open spec fn has_shell_meta(s: Seq<char>) -> bool {
    exists|i: int| 0 <= i < s.len() && is_shell_meta(#[trigger] s[i])
}

fn shell_meta(c: char) -> (r: bool)
    ensures
        r == is_shell_meta(c),
{
    c == ';' || c == '|' || c == '&' || c == '$' || c == '`' || c == '(' || c == ')' || c == '{'
        || c == '}' || c == '[' || c == ']' || c == '<' || c == '>' || c == '\n' || c == '\r'
        || c == '\'' || c == '"' || c == '\\' || c == '*' || c == '?' || c == '!' || c == '#'
        || c == '\0'
}

/// Checks whether `s` holds any shell metacharacter.
pub fn contains_shell_injection(s: &str) -> (r: bool)
    ensures
        r == has_shell_meta(s@),
{
    let cs = chars_of(s);
    let mut i: usize = 0;
    while i < cs.len()
        invariant
            i <= cs.len(),
            cs@ == s@,
            forall|j: int| 0 <= j < i ==> !is_shell_meta(#[trigger] cs@[j]),
        decreases cs.len() - i,
    {
        if shell_meta(cs[i]) {
            return true;
        }
        i = i + 1;
    }
    false
}

/// Refuses an argument that holds a shell metacharacter.
pub fn validate_argument(arg: &str) -> (r: Result<(), ValidationError>)
    ensures
        r is Ok <==> !has_shell_meta(arg@),
        r is Err ==> (r matches Err(ValidationError::ShellInjection(a)) && a@ == arg@),
{
    if contains_shell_injection(arg) {
        return Err(ValidationError::ShellInjection(String::from_str(arg)));
    }
    Ok(())
}

/// Starts with `-` and is neither `-` nor `--`.
pub open spec fn flag_like(s: Seq<char>) -> bool {
    s.len() > 0 && s[0] == '-' && s != seq!['-'] && s != seq!['-', '-']
}

/// Checks whether `s` would be read as a command-line option.
pub fn is_flag_like(s: &str) -> (r: bool)
    ensures
        r == flag_like(s@),
{
    let cs = chars_of(s);
    let n = cs.len();
    if n == 0 || cs[0] != '-' {
        return false;
    }
    if n == 1 {
        assert(s@ =~= seq!['-']);
        return false;
    }
    if n == 2 && cs[1] == '-' {
        assert(s@ =~= seq!['-', '-']);
        return false;
    }
    assert(s@.len() != 1);
    assert(s@ != seq!['-', '-']) by {
        if n == 2 {
            assert(s@[1] != seq!['-', '-'][1]);
        }
    }
    true
}

/// Refuses a positional argument that looks like a flag.
pub fn validate_not_flag(arg: &str) -> (r: Result<(), ValidationError>)
    ensures
        r is Ok <==> !flag_like(arg@),
        r is Err ==> (r matches Err(ValidationError::FlagInjection(a)) && a@ == arg@),
{
    if is_flag_like(arg) {
        return Err(ValidationError::FlagInjection(String::from_str(arg)));
    }
    Ok(())
}

/// Whether `s` holds two dots in a row.
pub open spec fn has_dot_dot(s: Seq<char>) -> bool {
    exists|i: int| 0 <= i && i + 1 < s.len() && #[trigger] s[i] == '.' && s[i + 1] == '.'
}

/// Checks whether `path` holds `..` anywhere.
pub fn contains_traversal(path: &str) -> (r: bool)
    ensures
        r == has_dot_dot(path@),
{
    let cs = chars_of(path);
    if cs.len() < 2 {
        return false;
    }
    let mut i: usize = 0;
    while i < cs.len() - 1
        invariant
            i < cs.len(),
            cs.len() >= 2,
            cs@ == path@,
            forall|j: int| 0 <= j < i && j + 1 < cs@.len() ==> !(#[trigger] cs@[j] == '.' && cs@[j + 1] == '.'),
        decreases cs.len() - i,
    {
        if cs[i] == '.' && cs[i + 1] == '.' {
            return true;
        }
        i = i + 1;
    }
    false
}

/// Refuses a path that holds `..`.
pub fn validate_no_traversal(path: &str) -> (r: Result<(), ValidationError>)
    ensures
        r is Ok <==> !has_dot_dot(path@),
        r is Err ==> (r matches Err(ValidationError::PathTraversal(p)) && p@ == path@),
{
    if contains_traversal(path) {
        return Err(ValidationError::PathTraversal(String::from_str(path)));
    }
    Ok(())
}

/// Starts at the root: its first character is `/`.
pub open spec fn is_absolute(s: Seq<char>) -> bool {
    s.len() > 0 && s[0] == '/'
}

fn starts_at_root(s: &str) -> (r: bool)
    ensures
        r == is_absolute(s@),
{
    let cs = chars_of(s);
    cs.len() > 0 && cs[0] == '/'
}

/// Refuses a path that is not absolute.
pub fn validate_absolute_path(path: &str) -> (r: Result<(), ValidationError>)
    ensures
        r is Ok <==> is_absolute(path@),
        r is Err ==> (r matches Err(ValidationError::RelativeWorkingDir(p)) && p@ == path@),
{
    if !starts_at_root(path) {
        return Err(ValidationError::RelativeWorkingDir(String::from_str(path)));
    }
    Ok(())
}


/// What `str::to_uppercase` makes of a string.
pub uninterp spec fn upper_of(s: Seq<char>) -> Seq<char>;

/// Relies on `str::to_uppercase`: the result depends on the characters alone.
#[verifier::external_body]
fn to_upper(s: &str) -> (r: String)
    ensures
        r@ == upper_of(s@),
{
    s.to_uppercase()
}

/// An upper-case variable name that is, or begins with, a name that can
/// inject code or change how programs are found.
pub open spec fn is_dangerous_upper(u: Seq<char>) -> bool {
    "LD_PRELOAD"@.is_prefix_of(u) || "LD_LIBRARY_PATH"@.is_prefix_of(u)
        || "DYLD_INSERT_LIBRARIES"@.is_prefix_of(u) || "DYLD_LIBRARY_PATH"@.is_prefix_of(u)
        || "PATH"@.is_prefix_of(u) || "HOME"@.is_prefix_of(u) || "USER"@.is_prefix_of(u)
        || "SHELL"@.is_prefix_of(u) || "IFS"@.is_prefix_of(u) || "BASH_ENV"@.is_prefix_of(u)
        || "ENV"@.is_prefix_of(u) || "CDPATH"@.is_prefix_of(u) || "GLOBIGNORE"@.is_prefix_of(u)
        || "BASH_FUNC_"@.is_prefix_of(u) || "PS1"@.is_prefix_of(u) || "PS2"@.is_prefix_of(u)
        || "PS4"@.is_prefix_of(u) || "PROMPT_COMMAND"@.is_prefix_of(u)
}

/// Whether an already upper-cased variable name is dangerous.
pub fn dangerous_upper(upper: &str) -> (r: bool)
    ensures
        r == is_dangerous_upper(upper@),
{
    let u = chars_of(upper);
    starts_with_str(&u, "LD_PRELOAD") || starts_with_str(&u, "LD_LIBRARY_PATH")
        || starts_with_str(&u, "DYLD_INSERT_LIBRARIES") || starts_with_str(&u, "DYLD_LIBRARY_PATH")
        || starts_with_str(&u, "PATH") || starts_with_str(&u, "HOME") || starts_with_str(&u, "USER")
        || starts_with_str(&u, "SHELL") || starts_with_str(&u, "IFS") || starts_with_str(
        &u,
        "BASH_ENV",
    ) || starts_with_str(&u, "ENV") || starts_with_str(&u, "CDPATH") || starts_with_str(
        &u,
        "GLOBIGNORE",
    ) || starts_with_str(&u, "BASH_FUNC_") || starts_with_str(&u, "PS1") || starts_with_str(
        &u,
        "PS2",
    ) || starts_with_str(&u, "PS4") || starts_with_str(&u, "PROMPT_COMMAND")
}

/// Whether setting the variable `name` is refused, whatever its case.
pub fn is_dangerous_env_var(name: &str) -> (r: bool)
    ensures
        r == is_dangerous_upper(upper_of(name@)),
{
    let upper = to_upper(name);
    dangerous_upper(upper.as_str())
}

/// The verdict on setting variable `name` to `value`, given the upper-case
/// form of the name: a dangerous name first, then metacharacters in the name,
/// then in the value.
pub open spec fn env_var_verdict(upper: Seq<char>, name: Seq<char>, value: Seq<char>, r: Result<(), ValidationError>) -> bool {
    if is_dangerous_upper(upper) {
        r matches Err(ValidationError::DangerousEnvVar(n)) && n@ == name
    } else if has_shell_meta(name) {
        r matches Err(ValidationError::ShellInjection(n)) && n@ == name
    } else if has_shell_meta(value) {
        r matches Err(ValidationError::ShellInjection(v)) && v@ == value
    } else {
        r is Ok
    }
}

/// Refuses a dangerous variable name, then shell metacharacters in the name
/// or the value.
pub fn validate_env_var(name: &str, value: &str) -> (r: Result<(), ValidationError>)
    ensures
        env_var_verdict(upper_of(name@), name@, value@, r),
{
    if is_dangerous_env_var(name) {
        return Err(ValidationError::DangerousEnvVar(String::from_str(name)));
    }
    if contains_shell_injection(name) {
        return Err(ValidationError::ShellInjection(String::from_str(name)));
    }
    if contains_shell_injection(value) {
        return Err(ValidationError::ShellInjection(String::from_str(value)));
    }
    Ok(())
}

/// `entry` blocks `path`: the path is the entry itself or lies below it.
pub open spec fn blocks(entry: Seq<char>, path: Seq<char>) -> bool {
    path == entry || (entry + seq!['/']).is_prefix_of(path)
}

/// The views of a list of strings.
pub open spec fn string_views(v: Seq<String>) -> Seq<Seq<char>> {
    v.map_values(|s: String| s@)
}

/// The first entry of `entries` that blocks `path`.
pub open spec fn first_blocking(path: Seq<char>, entries: Seq<Seq<char>>) -> Option<Seq<char>>
    decreases entries.len(),
{
    if entries.len() == 0 {
        None
    } else if blocks(entries[0], path) {
        Some(entries[0])
    } else {
        first_blocking(path, entries.drop_first())
    }
}

/// An entry blocks only the path itself and paths that continue it with a
/// separator: a longer name that merely starts with it is not blocked.
pub proof fn lemma_block_needs_separator(entry: Seq<char>, path: Seq<char>)
    requires
        blocks(entry, path),
        path != entry,
    ensures
        path.len() > entry.len(),
        path[entry.len() as int] == '/',
        path.subrange(0, entry.len() as int) == entry,
{
    let e = entry + seq!['/'];
    assert(e[entry.len() as int] == '/');
    assert(path.subrange(0, e.len() as int)[entry.len() as int] == '/');
    assert(path.subrange(0, entry.len() as int) =~= e.subrange(0, entry.len() as int));
    assert(e.subrange(0, entry.len() as int) =~= entry);
}

fn entry_blocks(entry: &str, path: &Vec<char>) -> (r: bool)
    ensures
        r == blocks(entry@, path@),
{
    let mut under = chars_of(entry);
    let ghost e = under@;
    if under.len() == path.len() && has_prefix(path, &under) {
        assert(path@ =~= e);
        return true;
    }
    under.push('/');
    assert(under@ == e + seq!['/']);
    let r = has_prefix(path, &under);
    assert(path@ != e) by {
        if path@ == e {
            assert(e.is_prefix_of(path@));
        }
    }
    r
}

/// Returns the first of `blocked_paths` that is `resolved` itself or a
/// directory above it.
pub fn first_blocking_entry(resolved: &str, blocked_paths: &[String]) -> (r: Option<String>)
    ensures
        opt_view(r) == first_blocking(resolved@, string_views(blocked_paths@)),
{
    let path = chars_of(resolved);
    let ghost all = string_views(blocked_paths@);
    assert(all.skip(0) =~= all);
    let mut i: usize = 0;
    while i < blocked_paths.len()
        invariant
            i <= blocked_paths@.len(),
            path@ == resolved@,
            all == string_views(blocked_paths@),
            first_blocking(resolved@, all) == first_blocking(resolved@, all.skip(i as int)),
        decreases blocked_paths.len() - i,
    {
        let entry = &blocked_paths[i];
        proof {
            assert(all.skip(i as int)[0] == entry@);
            assert(all.skip(i as int).drop_first() =~= all.skip(i + 1));
        }
        if entry_blocks(entry.as_str(), &path) {
            return Some(entry.clone());
        }
        i = i + 1;
    }
    None
}

/// `path` made absolute against `base`, as `Path::join` does: an absolute
/// path stands alone; otherwise a separator goes between unless `base` is
/// empty or already ends in one.
pub open spec fn joined(base: Seq<char>, path: Seq<char>) -> Seq<char> {
    if is_absolute(path) {
        path
    } else if base.len() == 0 || base.last() == '/' {
        base + path
    } else {
        base + seq!['/'] + path
    }
}

/// Resolves `path` against the directory `base`.
pub fn resolve_path(base: &str, path: &str) -> (r: String)
    ensures
        r@ == joined(base@, path@),
{
    if starts_at_root(path) {
        return String::from_str(path);
    }
    let b = chars_of(base);
    let mut r = String::from_str(base);
    if b.len() > 0 && b[b.len() - 1] != '/' {
        r.append("/");
        proof {
            reveal_strlit("/");
        }
    }
    r.append(path);
    r
}

/// Relies on `Path::canonicalize`: the path with symbolic links and `.`
/// components resolved, or nothing where the path cannot be resolved (it does
/// not exist, or cannot be read). The answer depends on the file system; a
/// path it returns is absolute, which on Unix means it starts at `/`.
#[verifier::external_body]
fn canonical_form(path: &str) -> (r: Option<String>)
    ensures
        r matches Some(c) ==> is_absolute(c@),
{
    std::path::Path::new(path).canonicalize().ok().map(|p| p.to_string_lossy().into_owned())
}

/// The contents of an optional string.
pub open spec fn opt_view(s: Option<String>) -> Option<Seq<char>> {
    match s {
        Some(x) => Some(x@),
        None => None,
    }
}

/// The contents of an optional string slice.
pub open spec fn dir_view(s: Option<&str>) -> Option<Seq<char>> {
    match s {
        Some(x) => Some(x@),
        None => None,
    }
}

/// The path that is matched against the blocked entries: the canonical form
/// where the file system gave one, otherwise the path as resolved.
pub open spec fn pick(canonical: Option<Seq<char>>, resolved: Seq<char>) -> Seq<char> {
    match canonical {
        Some(c) => c,
        None => resolved,
    }
}

/// The first blocked entry that covers the canonical form of a path, or the
/// resolved path itself where canonicalization gave nothing.
pub fn blocked_entry_for(canonical: Option<String>, resolved: &str, blocked_paths: &[String]) -> (r: Option<String>)
    ensures
        opt_view(r) == first_blocking(pick(opt_view(canonical), resolved@), string_views(blocked_paths@)),
{
    match canonical {
        Some(c) => first_blocking_entry(c.as_str(), blocked_paths),
        None => first_blocking_entry(resolved, blocked_paths),
    }
}

/// `e` is what looking up `resolved` gives for some answer of the file
/// system: the first entry covering its canonical form (an absolute path), or
/// covering `resolved` itself where it has none.
pub open spec fn lookup_on_disk(resolved: Seq<char>, blocked_paths: Seq<String>, e: Option<Seq<char>>) -> bool {
    exists|c: Option<Seq<char>>|
        (c matches Some(x) ==> is_absolute(x)) && e == first_blocking(
            #[trigger] pick(c, resolved),
            string_views(blocked_paths),
        )
}

/// `path` made absolute: as it is when absolute, else joined to the current
/// directory; nothing when it is relative and no current directory is known.
pub open spec fn resolved_for(path: Seq<char>, current_dir: Option<Seq<char>>) -> Option<Seq<char>> {
    if is_absolute(path) {
        Some(path)
    } else {
        match current_dir {
            Some(d) => Some(joined(d, path)),
            None => None,
        }
    }
}

/// `e` is what the blocked-path lookup of `path` gives: no entry when the
/// path cannot be made absolute, otherwise the lookup of its absolute form.
pub open spec fn path_lookup(path: Seq<char>, current_dir: Option<Seq<char>>, blocked_paths: Seq<String>, e: Option<Seq<char>>) -> bool {
    match resolved_for(path, current_dir) {
        Some(a) => lookup_on_disk(a, blocked_paths, e),
        None => e is None,
    }
}

/// The entry of `blocked_paths` that blocks `path`, resolved against
/// `current_dir` when relative and then on disk; `None` for a relative path
/// when no current directory is known.
pub fn find_blocked_path_impl(path: &str, current_dir: Option<&str>, blocked_paths: &[String]) -> (r: Option<String>)
    ensures
        path_lookup(path@, dir_view(current_dir), blocked_paths@, opt_view(r)),
{
    let resolved = if starts_at_root(path) {
        String::from_str(path)
    } else {
        match current_dir {
            Some(dir) => resolve_path(dir, path),
            None => return None,
        }
    };
    let canonical = canonical_form(resolved.as_str());
    let ghost c = opt_view(canonical);
    let r = blocked_entry_for(canonical, resolved.as_str(), blocked_paths);
    proof {
        assert(c matches Some(x) ==> is_absolute(x));
        assert(lookup_on_disk(resolved@, blocked_paths@, opt_view(r)));
    }
    r
}

/// The administratively blocked paths, fixed once at start-up, together with
/// the directory that relative paths are resolved against.
pub struct PathPolicy {
    pub blocked_paths: Vec<String>,
    pub current_dir: Option<String>,
}

/// The entry that blocks `path` under `policy`.
pub fn find_blocked_path(path: &str, policy: &PathPolicy) -> (r: Option<String>)
    ensures
        path_lookup(path@, opt_view(policy.current_dir), policy.blocked_paths@, opt_view(r)),
{
    let dir = match &policy.current_dir {
        Some(d) => Some(d.as_str()),
        None => None,
    };
    assert(dir_view(dir) == opt_view(policy.current_dir));
    find_blocked_path_impl(path, dir, policy.blocked_paths.as_slice())
}

/// The verdict that goes with a lookup: the entry found, as a refusal, or
/// acceptance.
pub open spec fn blocked_verdict(e: Option<Seq<char>>, r: Result<(), ValidationError>) -> bool {
    match e {
        Some(x) => r matches Err(ValidationError::BlockedPath(b)) && b@ == x,
        None => r is Ok,
    }
}

/// The verdicts of the blocked-path check on `path`: the entry the lookup
/// finds is reported, for some answer of the file system.
pub open spec fn path_verdict(path: Seq<char>, current_dir: Option<Seq<char>>, blocked_paths: Seq<String>, r: Result<(), ValidationError>) -> bool {
    exists|e: Option<Seq<char>>|
        #[trigger] path_lookup(path, current_dir, blocked_paths, e) && blocked_verdict(e, r)
}

/// Refuses a path that a blocked entry covers, naming that entry.
pub fn validate_path(path: &str, policy: &PathPolicy) -> (r: Result<(), ValidationError>)
    ensures
        path_verdict(path@, opt_view(policy.current_dir), policy.blocked_paths@, r),
{
    let found = find_blocked_path(path, policy);
    let ghost e = opt_view(found);
    let r = match found {
        Some(blocked) => Err(ValidationError::BlockedPath(blocked)),
        None => Ok(()),
    };
    assert(path_lookup(path@, opt_view(policy.current_dir), policy.blocked_paths@, e));
    assert(blocked_verdict(e, r));
    r
}

/// A character with the Unicode `White_Space` property.
pub open spec fn is_white_space(c: char) -> bool {
    ('\t' <= c && c <= '\r') || c == ' ' || c == '\u{85}' || c == '\u{a0}' || c == '\u{1680}'
        || ('\u{2000}' <= c && c <= '\u{200a}') || c == '\u{2028}' || c == '\u{2029}'
        || c == '\u{202f}' || c == '\u{205f}' || c == '\u{3000}'
}

/// `s` without its leading white space.
pub open spec fn trim_start(s: Seq<char>) -> Seq<char>
    decreases s.len(),
{
    if s.len() > 0 && is_white_space(s[0]) {
        trim_start(s.drop_first())
    } else {
        s
    }
}

/// `s` without its trailing white space.
pub open spec fn trim_end(s: Seq<char>) -> Seq<char>
    decreases s.len(),
{
    if s.len() > 0 && is_white_space(s.last()) {
        trim_end(s.drop_last())
    } else {
        s
    }
}

/// `s` without leading and trailing white space.
pub open spec fn trimmed(s: Seq<char>) -> Seq<char> {
    trim_end(trim_start(s))
}

/// Relies on `str::trim`: leading and trailing characters with the Unicode
/// `White_Space` property removed.
#[verifier::external_body]
fn trim(s: &str) -> (r: String)
    ensures
        r@ == trimmed(s@),
{
    s.trim().to_string()
}

/// The pieces of `t` between occurrences of `sep`.
pub open spec fn pieces(t: Seq<char>, sep: char) -> Seq<Seq<char>>
    decreases t.len(),
{
    let k = first_index_of(t, sep);
    if k >= t.len() {
        seq![t]
    } else {
        seq![t.take(k as int)] + pieces(t.skip(k + 1 as int), sep)
    }
}

/// The entries a setting lists: its non-empty `;`-separated pieces, each
/// trimmed.
pub open spec fn setting_entries(t: Seq<char>) -> Seq<Seq<char>> {
    pieces(t, ';').filter(|p: Seq<char>| p.len() > 0).map_values(|p: Seq<char>| trimmed(p))
}

proof fn lemma_entries_split(a: Seq<Seq<char>>, b: Seq<Seq<char>>)
    ensures
        (a + b).filter(|p: Seq<char>| p.len() > 0).map_values(|p: Seq<char>| trimmed(p))
            == a.filter(|p: Seq<char>| p.len() > 0).map_values(|p: Seq<char>| trimmed(p))
            + b.filter(|p: Seq<char>| p.len() > 0).map_values(|p: Seq<char>| trimmed(p)),
{
    let f = |p: Seq<char>| p.len() > 0;
    Seq::filter_distributes_over_add(a, b, f);
    assert((a.filter(f) + b.filter(f)).map_values(|p: Seq<char>| trimmed(p)) =~= a.filter(f).map_values(
        |p: Seq<char>| trimmed(p),
    ) + b.filter(f).map_values(|p: Seq<char>| trimmed(p)));
}

proof fn lemma_entries_single(p: Seq<char>)
    ensures
        seq![p].filter(|p: Seq<char>| p.len() > 0).map_values(|p: Seq<char>| trimmed(p)) == if p.len()
            > 0 {
            seq![trimmed(p)]
        } else {
            Seq::<Seq<char>>::empty()
        },
{
    reveal(Seq::filter);
    let f = |p: Seq<char>| p.len() > 0;
    assert(seq![p].drop_last() =~= Seq::<Seq<char>>::empty());
    assert(Seq::<Seq<char>>::empty().filter(f) =~= Seq::<Seq<char>>::empty());
    assert(seq![p].filter(f) =~= if p.len() > 0 { seq![p] } else { Seq::<Seq<char>>::empty() });
    assert(seq![p].filter(f).map_values(|p: Seq<char>| trimmed(p)) =~= if p.len() > 0 {
        seq![trimmed(p)]
    } else {
        Seq::<Seq<char>>::empty()
    });
}

/// Parses a `;`-separated list of blocked paths; empty pieces are skipped and
/// each entry is trimmed.
pub fn parse_blocked_paths(setting: &str) -> (r: Vec<String>)
    ensures
        string_views(r@) == setting_entries(setting@),
{
    let t = chars_of(setting);
    let mut out: Vec<String> = Vec::new();
    let mut buf: Vec<char> = Vec::new();
    let mut i: usize = 0;
    proof {
        assert(buf@ + t@.skip(0) =~= t@);
    }
    while i < t.len()
        invariant
            i <= t.len(),
            t@ == setting@,
            !buf@.contains(';'),
            string_views(out@) + setting_entries(buf@ + t@.skip(i as int)) == setting_entries(t@),
        decreases t.len() - i,
    {
        let c = t[i];
        if c == ';' {
            let ghost u = buf@ + t@.skip(i as int);
            proof {
                lemma_first_index_after(buf@, t@.skip(i as int), ';');
                assert(u.take(buf@.len() as int) =~= buf@);
                assert(u.skip(buf@.len() + 1 as int) =~= t@.skip(i + 1));
                assert(pieces(u, ';') == seq![buf@] + pieces(t@.skip(i + 1), ';'));
                lemma_entries_split(seq![buf@], pieces(t@.skip(i + 1), ';'));
                lemma_entries_single(buf@);
                assert(Seq::<char>::empty() + t@.skip(i + 1) =~= t@.skip(i + 1));
            }
            if buf.len() > 0 {
                let ghost before = string_views(out@);
                let piece = string_of(&buf);
                out.push(trim(piece.as_str()));
                proof {
                    assert(string_views(out@) =~= before.push(trimmed(buf@)));
                    assert(before.push(trimmed(buf@)) + setting_entries(t@.skip(i + 1)) =~= before
                        + (seq![trimmed(buf@)] + setting_entries(t@.skip(i + 1))));
                }
            } else {
                proof {
                    assert(Seq::<Seq<char>>::empty() + setting_entries(t@.skip(i + 1))
                        =~= setting_entries(t@.skip(i + 1)));
                }
            }
            buf = Vec::new();
        } else {
            proof {
                assert(buf@.push(c) + t@.skip(i + 1) =~= buf@ + t@.skip(i as int));
                assert(!buf@.push(c).contains(';')) by {
                    if buf@.push(c).contains(';') {
                        let j = choose|j: int| 0 <= j < buf@.push(c).len() && buf@.push(c)[j] == ';';
                        if j < buf@.len() {
                            assert(buf@[j] == ';');
                        }
                    }
                }
            }
            buf.push(c);
        }
        i = i + 1;
    }
    proof {
        assert(buf@ + t@.skip(i as int) =~= buf@);
        lemma_first_index_after(buf@, seq![], ';');
        assert(buf@ + Seq::<char>::empty() =~= buf@);
        assert(pieces(buf@, ';') == seq![buf@]);
        lemma_entries_single(buf@);
    }
    if buf.len() > 0 {
        let ghost before = string_views(out@);
        let piece = string_of(&buf);
        out.push(trim(piece.as_str()));
        proof {
            assert(string_views(out@) =~= before.push(trimmed(buf@)));
            assert(before.push(trimmed(buf@)) =~= before + seq![trimmed(buf@)]);
        }
    } else {
        proof {
            assert(string_views(out@) + Seq::<Seq<char>>::empty() =~= string_views(out@));
        }
    }
    out
}

impl PathPolicy {
    /// A policy from a `;`-separated setting of blocked paths and the
    /// directory relative paths resolve against.
    pub fn from_setting(setting: &str, current_dir: Option<String>) -> (r: PathPolicy)
        ensures
            string_views(r.blocked_paths@) == setting_entries(setting@),
            r.current_dir == current_dir,
    {
        PathPolicy { blocked_paths: parse_blocked_paths(setting), current_dir }
    }
}

/// The verdicts of a path check against a working directory: a relative
/// working directory is refused; otherwise the entry found by looking up the
/// path as resolved against the working directory is reported, for some
/// answer of the file system.
pub open spec fn working_dir_verdict(working_dir: Seq<char>, path: Seq<char>, blocked_paths: Seq<String>, r: Result<(), ValidationError>) -> bool {
    if !is_absolute(working_dir) {
        r matches Err(ValidationError::RelativeWorkingDir(d)) && d@ == working_dir
    } else {
        exists|e: Option<Seq<char>>|
            #[trigger] lookup_on_disk(joined(working_dir, path), blocked_paths, e) && blocked_verdict(e, r)
    }
}

/// Refuses a relative working directory, then a path that, resolved against
/// the working directory and on disk, a blocked entry covers.
pub fn validate_path_with_working_dir_impl(path: &str, working_dir: &str, blocked_paths: &[String]) -> (r: Result<(), ValidationError>)
    ensures
        working_dir_verdict(working_dir@, path@, blocked_paths@, r),
{
    if !starts_at_root(working_dir) {
        return Err(ValidationError::RelativeWorkingDir(String::from_str(working_dir)));
    }
    let resolved = resolve_path(working_dir, path);
    let canonical = canonical_form(resolved.as_str());
    let ghost c = opt_view(canonical);
    let found = blocked_entry_for(canonical, resolved.as_str(), blocked_paths);
    let ghost e = opt_view(found);
    let r = match found {
        Some(blocked) => Err(ValidationError::BlockedPath(blocked)),
        None => Ok(()),
    };
    proof {
        assert(c matches Some(x) ==> is_absolute(x));
        assert(lookup_on_disk(resolved@, blocked_paths@, e));
        assert(blocked_verdict(e, r));
    }
    r
}

/// `validate_path_with_working_dir_impl` against the policy's blocked paths.
pub fn validate_path_with_working_dir(path: &str, working_dir: &str, policy: &PathPolicy) -> (r: Result<(), ValidationError>)
    ensures
        working_dir_verdict(working_dir@, path@, policy.blocked_paths@, r),
{
    validate_path_with_working_dir_impl(path, working_dir, policy.blocked_paths.as_slice())
}

/// For an absolute path under an absolute working directory, the working
/// directory changes nothing: the check admits the same verdicts as the
/// plain blocked-path check.
pub proof fn lemma_absolute_path_ignores_working_dir(
    path: Seq<char>,
    working_dir: Seq<char>,
    current_dir: Option<Seq<char>>,
    blocked_paths: Seq<String>,
    r: Result<(), ValidationError>,
)
    requires
        is_absolute(path),
        is_absolute(working_dir),
    ensures
        working_dir_verdict(working_dir, path, blocked_paths, r) == path_verdict(
            path,
            current_dir,
            blocked_paths,
            r,
        ),
{
    assert(joined(working_dir, path) == path);
    assert(resolved_for(path, current_dir) == Some(path));
    if working_dir_verdict(working_dir, path, blocked_paths, r) {
        let e = choose|e: Option<Seq<char>>|
            #[trigger] lookup_on_disk(joined(working_dir, path), blocked_paths, e) && blocked_verdict(e, r);
        assert(path_lookup(path, current_dir, blocked_paths, e));
    }
    if path_verdict(path, current_dir, blocked_paths, r) {
        let e = choose|e: Option<Seq<char>>|
            #[trigger] path_lookup(path, current_dir, blocked_paths, e) && blocked_verdict(e, r);
        assert(lookup_on_disk(joined(working_dir, path), blocked_paths, e));
    }
}

/// A request that is checked before anything is run for it.
pub trait Validatable {
    /// Whether `r` is a verdict that this request can receive under `policy`.
    spec fn admits(&self, policy: PathPolicy, r: Result<(), ValidationError>) -> bool;

    /// Checks the request; the first rule it breaks is reported.
    fn validate(&self, policy: &PathPolicy) -> (r: Result<(), ValidationError>)
        ensures
            self.admits(*policy, r),
    ;
}

} // verus!
