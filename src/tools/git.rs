//! The git runner: a fixed allow-list of subcommands.

use vstd::prelude::*;

use crate::executor::CommandLine;
use crate::security::{has_shell_meta, validate_argument, PathPolicy, Validatable, ValidationError};
use crate::text::{chars_of, same_chars};

verus! {

/// The allowed subcommands, as listed to the user.
pub const ALLOWED_GIT_SUBCOMMANDS: &'static str = "status, add, commit, checkout";

/// Parameters of the git tool.
pub struct GitRequest {
    /// The subcommand to run.
    pub subcommand: String,
    /// Its arguments, passed on as they are.
    pub args: Vec<String>,
}

/// One of `status`, `add`, `commit`, `checkout`.
pub open spec fn is_allowed_subcommand(s: Seq<char>) -> bool {
    s == "status"@ || s == "add"@ || s == "commit"@ || s == "checkout"@
}

fn is_word(s: &Vec<char>, w: &str) -> (r: bool)
    ensures
        r == (s@ == w@),
{
    let wc = chars_of(w);
    same_chars(s, &wc)
}

/// Whether `subcommand` is on the allow-list.
pub fn allowed_subcommand(subcommand: &str) -> (r: bool)
    ensures
        r == is_allowed_subcommand(subcommand@),
{
    let s = chars_of(subcommand);
    is_word(&s, "status") || is_word(&s, "add") || is_word(&s, "commit") || is_word(&s, "checkout")
}

/// The first argument that holds a shell metacharacter.
pub open spec fn first_unsafe_arg(args: Seq<String>) -> Option<Seq<char>>
    decreases args.len(),
{
    if args.len() == 0 {
        None
    } else if has_shell_meta(args[0]@) {
        Some(args[0]@)
    } else {
        first_unsafe_arg(args.drop_first())
    }
}

/// The verdict on a git request: a subcommand off the allow-list, then
/// metacharacters in the subcommand, then in the first argument that has any.
pub open spec fn git_verdict(subcommand: Seq<char>, args: Seq<String>, r: Result<(), ValidationError>) -> bool {
    if !is_allowed_subcommand(subcommand) {
        r matches Err(ValidationError::DisallowedSubcommand { subcommand: s, allowed: a }) && s@
            == subcommand && a@ == ALLOWED_GIT_SUBCOMMANDS@
    } else if has_shell_meta(subcommand) {
        r matches Err(ValidationError::ShellInjection(a)) && a@ == subcommand
    } else {
        match first_unsafe_arg(args) {
            Some(u) => r matches Err(ValidationError::ShellInjection(a)) && a@ == u,
            None => r is Ok,
        }
    }
}

impl Validatable for GitRequest {
    open spec fn admits(&self, policy: PathPolicy, r: Result<(), ValidationError>) -> bool {
        git_verdict(self.subcommand@, self.args@, r)
    }

    fn validate(&self, policy: &PathPolicy) -> (r: Result<(), ValidationError>) {
        if !allowed_subcommand(self.subcommand.as_str()) {
            return Err(
                ValidationError::DisallowedSubcommand {
                    subcommand: self.subcommand.clone(),
                    allowed: String::from_str(ALLOWED_GIT_SUBCOMMANDS),
                },
            );
        }
        validate_argument(self.subcommand.as_str())?;
        let ghost all = self.args@;
        assert(all.skip(0) =~= all);
        let mut i: usize = 0;
        while i < self.args.len()
            invariant
                i <= self.args@.len(),
                all == self.args@,
                is_allowed_subcommand(self.subcommand@),
                !has_shell_meta(self.subcommand@),
                first_unsafe_arg(all) == first_unsafe_arg(all.skip(i as int)),
            decreases self.args.len() - i,
        {
            proof {
                assert(all.skip(i as int)[0] == all[i as int]);
                assert(all.skip(i as int).drop_first() =~= all.skip(i + 1));
            }
            let v = validate_argument(self.args[i].as_str());
            if let Err(e) = v {
                assert(first_unsafe_arg(all.skip(i as int)) == Some(all[i as int]@));
                return Err(e);
            }
            i = i + 1;
        }
        Ok(())
    }
}

/// `git <subcommand> <args...>`.
pub open spec fn is_git_command(c: CommandLine, subcommand: Seq<char>, args: Seq<String>) -> bool {
    &&& c.program@ == "git"@
    &&& c.args@.len() == args.len() + 1
    &&& c.args@[0]@ == subcommand
    &&& forall|i: int| 0 <= i < args.len() ==> (#[trigger] c.args@[i + 1])@ == args[i]@
}

/// The git command for `req`.
pub fn command_line(req: &GitRequest) -> (r: CommandLine)
    ensures
        is_git_command(r, req.subcommand@, req.args@),
{
    let mut args: Vec<String> = Vec::new();
    args.push(req.subcommand.clone());
    let mut i: usize = 0;
    while i < req.args.len()
        invariant
            i <= req.args@.len(),
            args@.len() == i + 1,
            args@[0]@ == req.subcommand@,
            forall|j: int| 0 <= j < i ==> (#[trigger] args@[j + 1])@ == req.args@[j]@,
        decreases req.args.len() - i,
    {
        args.push(req.args[i].clone());
        i = i + 1;
    }
    CommandLine { program: String::from_str("git"), args }
}

} // verus!
