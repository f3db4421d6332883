//! Directory listing.

use vstd::prelude::*;

use crate::executor::CommandLine;
use crate::request::ExecutionContext;
use crate::security::{
    flag_like, has_dot_dot, has_shell_meta, message_of, opt_view, path_verdict, validate_argument, validate_no_traversal, validate_not_flag, validate_path,
    validate_path_with_working_dir, working_dir_verdict, PathPolicy, Validatable, ValidationError,
};

verus! {

/// Parameters of the listing tool.
pub struct LsRequest {
    /// The path to list.
    pub path: String,
}

/// The path listed when a request names none.
pub fn default_path() -> (r: String)
    ensures
        r@ == "."@,
{
    String::from_str(".")
}

/// The verdicts on listing `path`: metacharacters, then a flag, then `..`;
/// a path that passes those gets the verdict of the blocked-path check.
pub open spec fn ls_verdict(path: Seq<char>, policy: PathPolicy, r: Result<(), ValidationError>) -> bool {
    if has_shell_meta(path) {
        r matches Err(ValidationError::ShellInjection(a)) && a@ == path
    } else if flag_like(path) {
        r matches Err(ValidationError::FlagInjection(a)) && a@ == path
    } else if has_dot_dot(path) {
        r matches Err(ValidationError::PathTraversal(a)) && a@ == path
    } else {
        path_verdict(path, opt_view(policy.current_dir), policy.blocked_paths@, r)
    }
}

impl Validatable for LsRequest {
    open spec fn admits(&self, policy: PathPolicy, r: Result<(), ValidationError>) -> bool {
        ls_verdict(self.path@, policy, r)
    }

    fn validate(&self, policy: &PathPolicy) -> (r: Result<(), ValidationError>) {
        validate_argument(self.path.as_str())?;
        validate_not_flag(self.path.as_str())?;
        validate_no_traversal(self.path.as_str())?;
        validate_path(self.path.as_str(), policy)?;
        Ok(())
    }
}

/// `ls -al <path>`.
pub open spec fn is_ls_command(c: CommandLine, path: Seq<char>) -> bool {
    &&& c.program@ == "ls"@
    &&& c.args@.len() == 2
    &&& c.args@[0]@ == "-al"@
    &&& c.args@[1]@ == path
}

/// The listing command for `req`.
pub fn command_line(req: &LsRequest) -> (r: CommandLine)
    ensures
        is_ls_command(r, req.path@),
{
    let args = vec![String::from_str("-al"), req.path.clone()];
    CommandLine { program: String::from_str("ls"), args }
}

/// What preparing the listing gives once the working-directory check has
/// answered `recheck`: the command, or `Error: ` and the error's text.
pub open spec fn prepared_spec(path: Seq<char>, recheck: Result<(), ValidationError>, r: Result<CommandLine, String>) -> bool {
    match recheck {
        Ok(_) => r matches Ok(c) && is_ls_command(c, path),
        Err(e) => r matches Err(m) && m@ == "Error: "@ + message_of(e),
    }
}

/// The command for `req`, or the refusal text, given the answer of the
/// working-directory check.
pub fn prepared(req: &LsRequest, recheck: Result<(), ValidationError>) -> (r: Result<CommandLine, String>)
    ensures
        prepared_spec(req.path@, recheck, r),
{
    match recheck {
        Ok(_) => Ok(command_line(req)),
        Err(e) => {
            let mut m = String::from_str("Error: ");
            m.append(e.message().as_str());
            Err(m)
        },
    }
}

/// The command to run for `req` in `ctx`. With a working directory, the path
/// is first checked again as resolved against it; a refusal comes back as
/// `Error: ` and the error's text.
pub fn prepare(req: &LsRequest, ctx: &ExecutionContext, policy: &PathPolicy) -> (r: Result<CommandLine, String>)
    ensures
        ctx.working_dir is None ==> (r matches Ok(c) && is_ls_command(c, req.path@)),
        ctx.working_dir matches Some(wd) ==> exists|v: Result<(), ValidationError>|
            #[trigger] working_dir_verdict(wd@, req.path@, policy.blocked_paths@, v)
                && prepared_spec(req.path@, v, r),
{
    match &ctx.working_dir {
        Some(working_dir) => {
            let v = validate_path_with_working_dir(req.path.as_str(), working_dir.as_str(), policy);
            assert(working_dir_verdict(working_dir@, req.path@, policy.blocked_paths@, v));
            prepared(req, v)
        },
        None => Ok(command_line(req)),
    }
}

} // verus!
