//! Tool requests: their common parameters, the execution context derived from
//! them, and the ordered pipeline of output transformations.

use vstd::prelude::*;

use crate::security::{
    env_var_verdict, has_shell_meta, is_absolute, is_dangerous_upper, message_of, upper_of,
    validate_absolute_path, validate_env_var, PathPolicy, Validatable, ValidationError,
};
use crate::pattern::{regex_compile_error, regex_is_match, GrepPattern};
use crate::tools::git::{is_allowed_subcommand, git_verdict, GitRequest, ALLOWED_GIT_SUBCOMMANDS};
use crate::text::{
    chars_of, dedup_adjacent, dedup_lines, first_lines, flagged, join, join_lines, keep_flagged,
    line_order, lines_from, lines_of, sort_lines, split_lines, starts_with_str, string_of,
};

verus! {

/// Timeout used when a request names none, in milliseconds.
pub const DEFAULT_TIMEOUT_MS: u64 = 180_000;

/// How a command is run: timeout, working directory and extra environment.
pub struct ExecutionContext {
    pub timeout_ms: Option<u64>,
    pub working_dir: Option<String>,
    pub env: Option<Vec<(String, String)>>,
}

impl Default for ExecutionContext {
    /// No timeout, the inherited working directory and environment.
    fn default() -> (r: ExecutionContext)
        ensures
            r.timeout_ms is None,
            r.working_dir is None,
            r.env is None,
    {
        ExecutionContext { timeout_ms: None, working_dir: None, env: None }
    }
}

/// One stage of the output pipeline.
#[derive(Debug, Clone, Copy, PartialEq, Eq, Structural)]
pub enum Transformation {
    Grep,
    Sort,
    Unique,
    Head,
    Tail,
}

/// The stages applied when a request names no order.
pub open spec fn default_order() -> Seq<Transformation> {
    seq![
        Transformation::Grep,
        Transformation::Sort,
        Transformation::Unique,
        Transformation::Head,
        Transformation::Tail,
    ]
}

/// The stages applied when a request names no order.
pub fn default_transform_order() -> (r: Vec<Transformation>)
    ensures
        r@ == default_order(),
{
    let r = vec![
        Transformation::Grep,
        Transformation::Sort,
        Transformation::Unique,
        Transformation::Head,
        Transformation::Tail,
    ];
    assert(r@ =~= default_order());
    r
}

/// Text that begins with the error marker `Error:`.
pub open spec fn error_marked(t: Seq<char>) -> bool {
    "Error:"@.is_prefix_of(t)
}

/// The text reported for a pattern the regex crate refuses.
pub open spec fn invalid_pattern_text(m: Seq<char>) -> Seq<char> {
    "Error: Invalid grep pattern: "@ + m
}

/// The lines of `t` that `pattern` matches (or, with `invert`, does not).
pub open spec fn grep_text(pattern: Seq<char>, invert: bool, t: Seq<char>) -> Seq<char> {
    match regex_compile_error(pattern) {
        Some(m) => invalid_pattern_text(m),
        None => {
            let ls = lines_of(t);
            join_lines(flagged(ls, ls.map_values(|l: Seq<char>| regex_is_match(pattern, l) != invert)))
        },
    }
}

/// The lines of `t` in ascending order.
pub open spec fn sort_text(t: Seq<char>) -> Seq<char> {
    join_lines(lines_of(t).sort_by(line_order()))
}

/// The lines of `t` without adjacent repeats.
pub open spec fn unique_text(t: Seq<char>) -> Seq<char> {
    join_lines(dedup_adjacent(lines_of(t)))
}

/// The first `n` lines of `t`.
pub open spec fn head_text(n: nat, t: Seq<char>) -> Seq<char> {
    let ls = lines_of(t);
    join_lines(ls.take(if n < ls.len() { n as int } else { ls.len() as int }))
}

/// The last `n` lines of `t`; `t` itself when it has no more than `n` lines.
pub open spec fn tail_text(n: nat, t: Seq<char>) -> Seq<char> {
    let ls = lines_of(t);
    if n >= ls.len() {
        t
    } else {
        join_lines(ls.skip(ls.len() - n))
    }
}

/// Whether `t` begins with the error marker.
fn text_error_marked(t: &String) -> (r: bool)
    ensures
        r == error_marked(t@),
{
    let cs = chars_of(t.as_str());
    starts_with_str(&cs, "Error:")
}

/// The text reported for a pattern the regex crate refuses with message `m`.
pub fn invalid_pattern_message(m: &str) -> (r: String)
    ensures
        r@ == invalid_pattern_text(m@),
{
    let mut s = String::from_str("Error: Invalid grep pattern: ");
    s.append(m);
    s
}

/// A tool request: the tool's own parameters in `inner`, and the parameters
/// common to every tool.
pub struct ToolRequest<T> {
    pub grep_pattern: Option<String>,
    pub invert_grep: Option<bool>,
    pub head: Option<usize>,
    pub tail: Option<usize>,
    pub sort: Option<bool>,
    pub unique: Option<bool>,
    pub timeout_ms: Option<u64>,
    pub working_dir: Option<String>,
    pub env: Option<Vec<(String, String)>>,
    pub transform_order: Option<Vec<Transformation>>,
    pub inner: T,
}

/// Two optional strings with the same contents.
pub open spec fn same_text(a: Option<String>, b: Option<String>) -> bool {
    match (a, b) {
        (Some(x), Some(y)) => x@ == y@,
        (None, None) => true,
        _ => false,
    }
}

/// Two optional variable lists with the same names and values in order.
pub open spec fn same_env(a: Option<Vec<(String, String)>>, b: Option<Vec<(String, String)>>) -> bool {
    match (a, b) {
        (Some(x), Some(y)) => x@.len() == y@.len() && forall|i: int|
            0 <= i < x@.len() ==> (#[trigger] x@[i]).0@ == y@[i].0@ && x@[i].1@ == y@[i].1@,
        (None, None) => true,
        _ => false,
    }
}

fn copy_text(a: &Option<String>) -> (r: Option<String>)
    ensures
        same_text(r, *a),
{
    match a {
        Some(s) => Some(s.clone()),
        None => None,
    }
}

fn copy_env(a: &Option<Vec<(String, String)>>) -> (r: Option<Vec<(String, String)>>)
    ensures
        same_env(r, *a),
{
    match a {
        None => None,
        Some(v) => {
            let mut out: Vec<(String, String)> = Vec::new();
            let mut i: usize = 0;
            while i < v.len()
                invariant
                    i <= v.len(),
                    out@.len() == i,
                    forall|j: int| 0 <= j < i ==> (#[trigger] out@[j]).0@ == v@[j].0@ && out@[j].1@ == v@[j].1@,
                decreases v.len() - i,
            {
                let (k, val) = &v[i];
                out.push((k.clone(), val.clone()));
                i = i + 1;
            }
            Some(out)
        },
    }
}

impl<T> ToolRequest<T> {
    /// The timeout this request asks for, or the default.
    pub open spec fn timeout_or_default(self) -> u64 {
        match self.timeout_ms {
            Some(t) => t,
            None => DEFAULT_TIMEOUT_MS,
        }
    }

    /// `ctx` carries this request's timeout (or the default), working
    /// directory and environment.
    pub open spec fn context_of(self, ctx: ExecutionContext) -> bool {
        &&& ctx.timeout_ms == Some(self.timeout_or_default())
        &&& same_text(ctx.working_dir, self.working_dir)
        &&& same_env(ctx.env, self.env)
    }

    /// The execution context for this request: its timeout (or the default),
    /// working directory and environment.
    pub fn execution_context(&self) -> (r: ExecutionContext)
        ensures
            self.context_of(r),
    {
        let timeout_ms = match self.timeout_ms {
            Some(t) => t,
            None => DEFAULT_TIMEOUT_MS,
        };
        ExecutionContext {
            timeout_ms: Some(timeout_ms),
            working_dir: copy_text(&self.working_dir),
            env: copy_env(&self.env),
        }
    }

    /// The stages this request applies, in order.
    pub open spec fn plan(self) -> Seq<Transformation> {
        match self.transform_order {
            Some(v) => v@,
            None => default_order(),
        }
    }

    /// What one stage makes of `t`; a stage whose parameter is unset leaves
    /// `t` as it is.
    pub open spec fn stage_output(self, step: Transformation, t: Seq<char>) -> Seq<char> {
        match step {
            Transformation::Grep => match self.grep_pattern {
                Some(p) => grep_text(p@, self.invert_grep == Some(true), t),
                None => t,
            },
            Transformation::Sort => if self.sort == Some(true) {
                sort_text(t)
            } else {
                t
            },
            Transformation::Unique => if self.unique == Some(true) {
                unique_text(t)
            } else {
                t
            },
            Transformation::Head => match self.head {
                Some(n) => head_text(n as nat, t),
                None => t,
            },
            Transformation::Tail => match self.tail {
                Some(n) => tail_text(n as nat, t),
                None => t,
            },
        }
    }

    /// The stages in `steps` applied in turn to `t`, stopping at the first
    /// result that carries the error marker.
    pub open spec fn run_steps(self, steps: Seq<Transformation>, t: Seq<char>) -> Seq<char>
        decreases steps.len(),
    {
        if steps.len() == 0 {
            t
        } else {
            let r = self.stage_output(steps[0], t);
            if error_marked(r) {
                r
            } else {
                self.run_steps(steps.drop_first(), r)
            }
        }
    }

    /// Whether running `steps` on `t` stops early, at a stage whose result
    /// carries the error marker.
    pub open spec fn halts(self, steps: Seq<Transformation>, t: Seq<char>) -> bool
        decreases steps.len(),
    {
        if steps.len() == 0 {
            false
        } else {
            let r = self.stage_output(steps[0], t);
            error_marked(r) || self.halts(steps.drop_first(), r)
        }
    }

    /// Applies the stages of this request's plan to `output`, in order.
    pub fn transform_output(&self, output: String) -> (r: String)
        ensures
            r@ == self.run_steps(self.plan(), output@),
    {
        let default_order = default_transform_order();
        let order: &Vec<Transformation> = match &self.transform_order {
            Some(v) => v,
            None => &default_order,
        };
        let ghost plan = self.plan();
        assert(order@ == plan);
        let mut result = output;
        let mut i: usize = 0;
        assert(plan.skip(0) =~= plan);
        while i < order.len()
            invariant
                i <= order.len(),
                order@ == plan,
                plan == self.plan(),
                self.run_steps(plan, output@) == self.run_steps(plan.skip(i as int), result@),
            decreases order.len() - i,
        {
            let step = order[i];
            proof {
                assert(plan.skip(i as int)[0] == step);
                assert(plan.skip(i as int).drop_first() =~= plan.skip(i + 1));
            }
            result = match step {
                Transformation::Grep => self.apply_grep(result),
                Transformation::Sort => self.apply_sort(result),
                Transformation::Unique => self.apply_unique(result),
                Transformation::Head => self.apply_head(result),
                Transformation::Tail => self.apply_tail(result),
            };
            if text_error_marked(&result) {
                return result;
            }
            i = i + 1;
        }
        result
    }

    /// Keeps the lines that the grep pattern matches (or, inverted, does not);
    /// an invalid pattern gives the error text instead.
    pub fn apply_grep(&self, output: String) -> (r: String)
        ensures
            r@ == self.stage_output(Transformation::Grep, output@),
    {
        match &self.grep_pattern {
            None => output,
            Some(pattern) => {
                let compiled = GrepPattern::compile(pattern.as_str());
                match compiled {
                    Err(m) => invalid_pattern_message(m.as_str()),
                    Ok(p) => {
                        let invert = match self.invert_grep {
                            Some(b) => b,
                            None => false,
                        };
                        let lines = split_lines(&chars_of(output.as_str()));
                        let flags = p.keep_flags(&lines, invert);
                        let kept = keep_flagged(lines, &flags);
                        string_of(&join(&kept))
                    },
                }
            },
        }
    }

    /// Sorts the lines when sorting is asked for.
    pub fn apply_sort(&self, output: String) -> (r: String)
        ensures
            r@ == self.stage_output(Transformation::Sort, output@),
    {
        if self.sort == Some(true) {
            let mut lines = split_lines(&chars_of(output.as_str()));
            sort_lines(&mut lines);
            string_of(&join(&lines))
        } else {
            output
        }
    }

    /// Drops adjacent repeated lines when that is asked for.
    pub fn apply_unique(&self, output: String) -> (r: String)
        ensures
            r@ == self.stage_output(Transformation::Unique, output@),
    {
        if self.unique == Some(true) {
            let lines = split_lines(&chars_of(output.as_str()));
            string_of(&join(&dedup_lines(lines)))
        } else {
            output
        }
    }

    /// Keeps the first `head` lines when a count is given.
    pub fn apply_head(&self, output: String) -> (r: String)
        ensures
            r@ == self.stage_output(Transformation::Head, output@),
    {
        match self.head {
            Some(n) => {
                let lines = split_lines(&chars_of(output.as_str()));
                string_of(&join(&first_lines(lines, n)))
            },
            None => output,
        }
    }

    /// Keeps the last `tail` lines when a count is given; text with no more
    /// lines than that is returned unchanged.
    pub fn apply_tail(&self, output: String) -> (r: String)
        ensures
            r@ == self.stage_output(Transformation::Tail, output@),
    {
        match self.tail {
            Some(n) => {
                let lines = split_lines(&chars_of(output.as_str()));
                let total = lines.len();
                if n >= total {
                    output
                } else {
                    string_of(&join(&lines_from(lines, total - n)))
                }
            },
            None => output,
        }
    }
}


/// A tail count that covers every line leaves the text exactly as it was.
pub proof fn lemma_tail_covering_is_identity(n: nat, t: Seq<char>)
    requires
        n >= lines_of(t).len(),
    ensures
        tail_text(n, t) == t,
{
}

/// A shorter tail keeps the last `n` lines, in the order they had.
pub proof fn lemma_tail_keeps_last_lines(n: nat, t: Seq<char>)
    requires
        n < lines_of(t).len(),
    ensures
        tail_text(n, t) == join_lines(lines_of(t).subrange(lines_of(t).len() - n, lines_of(t).len() as int)),
{
    assert(lines_of(t).skip(lines_of(t).len() - n) =~= lines_of(t).subrange(
        lines_of(t).len() - n,
        lines_of(t).len() as int,
    ));
}

/// An invalid grep pattern gives text that begins with `Error:`, and no stage
/// after the grep is applied to it: wherever the grep stands in the plan,
/// provided the stages before it did not already stop the run.
pub proof fn lemma_invalid_pattern_stops_pipeline<T>(
    req: ToolRequest<T>,
    before: Seq<Transformation>,
    rest: Seq<Transformation>,
    t: Seq<char>,
)
    requires
        req.grep_pattern is Some,
        regex_compile_error(req.grep_pattern->0@) is Some,
        !req.halts(before, t),
    ensures
        req.run_steps(before + seq![Transformation::Grep] + rest, t) == invalid_pattern_text(
            regex_compile_error(req.grep_pattern->0@)->0,
        ),
        error_marked(req.run_steps(before + seq![Transformation::Grep] + rest, t)),
    decreases before.len(),
{
    let m = regex_compile_error(req.grep_pattern->0@)->0;
    let steps = before + seq![Transformation::Grep] + rest;
    if before.len() == 0 {
        assert(steps =~= seq![Transformation::Grep] + rest);
        assert(steps[0] == Transformation::Grep);
        reveal_strlit("Error:");
        reveal_strlit("Error: Invalid grep pattern: ");
        assert("Error:"@ =~= invalid_pattern_text(m).subrange(0, 6));
    } else {
        let r = req.stage_output(before[0], t);
        assert(steps[0] == before[0]);
        assert(steps.drop_first() =~= before.drop_first() + seq![Transformation::Grep] + rest);
        lemma_invalid_pattern_stops_pipeline(req, before.drop_first(), rest, r);
    }
}

/// Setting this variable passes every check.
pub open spec fn env_entry_passes(name: Seq<char>, value: Seq<char>) -> bool {
    !is_dangerous_upper(upper_of(name)) && !has_shell_meta(name) && !has_shell_meta(value)
}

/// The verdict on a list of variables: that of the first one that fails a
/// check, or acceptance.
pub open spec fn env_list_verdict(env: Seq<(String, String)>, r: Result<(), ValidationError>) -> bool
    decreases env.len(),
{
    if env.len() == 0 {
        r is Ok
    } else if !env_entry_passes(env[0].0@, env[0].1@) {
        env_var_verdict(upper_of(env[0].0@), env[0].0@, env[0].1@, r)
    } else {
        env_list_verdict(env.drop_first(), r)
    }
}

/// Checks each variable of `env` in order; the first refusal is reported.
pub fn validate_env_list(env: &Vec<(String, String)>) -> (r: Result<(), ValidationError>)
    ensures
        env_list_verdict(env@, r),
{
    let ghost all = env@;
    assert(all.skip(0) =~= all);
    let mut i: usize = 0;
    while i < env.len()
        invariant
            i <= env@.len(),
            all == env@,
            forall|r: Result<(), ValidationError>|
                env_list_verdict(all, r) == #[trigger] env_list_verdict(all.skip(i as int), r),
        decreases env.len() - i,
    {
        let ghost rest = all.skip(i as int);
        proof {
            assert(rest[0] == all[i as int]);
            assert(rest.drop_first() =~= all.skip(i + 1));
        }
        let name = &env[i].0;
        let value = &env[i].1;
        let v = validate_env_var(name.as_str(), value.as_str());
        if v.is_err() {
            proof {
                assert(!env_entry_passes(all[i as int].0@, all[i as int].1@));
                assert(env_list_verdict(rest, v));
            }
            return v;
        }
        proof {
            assert(env_entry_passes(all[i as int].0@, all[i as int].1@));
            assert forall|r: Result<(), ValidationError>|
                env_list_verdict(all, r) == #[trigger] env_list_verdict(all.skip(i + 1), r) by {
                assert(env_list_verdict(rest, r) == env_list_verdict(rest.drop_first(), r));
            }
        }
        i = i + 1;
    }
    proof {
        assert(env_list_verdict(all.skip(i as int), Ok(())));
    }
    Ok(())
}

/// The verdict on the parameters common to all tools: a relative working
/// directory, then the environment variables.
pub open spec fn common_verdict(working_dir: Option<String>, env: Option<Vec<(String, String)>>, r: Result<(), ValidationError>) -> bool {
    match working_dir {
        Some(wd) if !is_absolute(wd@) => r matches Err(ValidationError::RelativeWorkingDir(d))
            && d@ == wd@,
        _ => match env {
            Some(e) => env_list_verdict(e@, r),
            None => r is Ok,
        },
    }
}

impl<T: Validatable> Validatable for ToolRequest<T> {
    open spec fn admits(&self, policy: PathPolicy, r: Result<(), ValidationError>) -> bool {
        exists|v: Result<(), ValidationError>| #[trigger]
            self.inner.admits(policy, v) && match v {
                Err(e) => r == Err::<(), ValidationError>(e),
                Ok(_) => common_verdict(self.working_dir, self.env, r),
            }
    }

    /// Checks the tool's own parameters, then the working directory and the
    /// environment variables.
    fn validate(&self, policy: &PathPolicy) -> (r: Result<(), ValidationError>) {
        let v = self.inner.validate(policy);
        assert(self.inner.admits(*policy, v));
        if let Err(e) = v {
            return Err(e);
        }
        if let Some(wd) = &self.working_dir {
            let w = validate_absolute_path(wd.as_str());
            if w.is_err() {
                return w;
            }
        }
        match &self.env {
            Some(env) => validate_env_list(env),
            None => Ok(()),
        }
    }
}

/// The text returned for a request given the verdict `v` on it: the error
/// text when it is refused, otherwise the pipeline applied to what running it
/// in its own context produced.
pub open spec fn tool_answer<T, F: FnOnce(&T, &ExecutionContext) -> String>(
    req: ToolRequest<T>,
    v: Result<(), ValidationError>,
    execute: F,
    r: Seq<char>,
) -> bool {
    match v {
        Err(e) => r == message_of(e),
        Ok(_) => exists|ctx: ExecutionContext, out: String|
            #[trigger] execute.ensures((&req.inner, &ctx), out) && req.context_of(ctx) && r
                == req.run_steps(req.plan(), out@),
    }
}

/// The text returned for a request: the answer for a verdict that its
/// validation can give.
pub open spec fn tool_response<T: Validatable, F: FnOnce(&T, &ExecutionContext) -> String>(
    req: ToolRequest<T>,
    policy: PathPolicy,
    execute: F,
    r: Seq<char>,
) -> bool {
    exists|v: Result<(), ValidationError>| #[trigger]
        req.admits(policy, v) && tool_answer(req, v, execute, r)
}

/// Answers `req` once its validation has given `verdict`: a refusal is
/// answered with its text and nothing is run; otherwise `execute` runs in the
/// request's context and the pipeline is applied to its output.
pub fn respond<T, F: FnOnce(&T, &ExecutionContext) -> String>(
    req: &ToolRequest<T>,
    verdict: Result<(), ValidationError>,
    execute: F,
) -> (r: String)
    requires
        forall|inner: &T, ctx: &ExecutionContext| #[trigger] execute.requires((inner, ctx)),
    ensures
        tool_answer(*req, verdict, execute, r@),
{
    match verdict {
        Err(e) => e.message(),
        Ok(_) => {
            let ctx = req.execution_context();
            let output = execute(&req.inner, &ctx);
            req.transform_output(output)
        },
    }
}

/// A git request whose subcommand is off the allow-list is answered with the
/// refusal alone, whatever the command would have printed.
pub proof fn lemma_disallowed_subcommand_refused<F: FnOnce(&GitRequest, &ExecutionContext) -> String>(
    req: ToolRequest<GitRequest>,
    policy: PathPolicy,
    execute: F,
    r: Seq<char>,
)
    requires
        !is_allowed_subcommand(req.inner.subcommand@),
        tool_response(req, policy, execute, r),
    ensures
        r == "Error: Subcommand '"@ + req.inner.subcommand@ + "' is not allowed. Allowed subcommands: "@
            + ALLOWED_GIT_SUBCOMMANDS@,
{
    let v = choose|v: Result<(), ValidationError>| #[trigger]
        req.admits(policy, v) && tool_answer(req, v, execute, r);
    let w = choose|w: Result<(), ValidationError>| #[trigger]
        req.inner.admits(policy, w) && match w {
            Err(e) => v == Err::<(), ValidationError>(e),
            Ok(_) => common_verdict(req.working_dir, req.env, v),
        };
    assert(git_verdict(req.inner.subcommand@, req.inner.args@, w));
}

/// Validates `req`; only when it passes, runs `execute` in the request's
/// context and applies the request's pipeline to the output.
pub fn run_tool<T: Validatable, F: FnOnce(&T, &ExecutionContext) -> String>(
    req: &ToolRequest<T>,
    policy: &PathPolicy,
    execute: F,
) -> (r: String)
    requires
        forall|inner: &T, ctx: &ExecutionContext| #[trigger] execute.requires((inner, ctx)),
    ensures
        tool_response(*req, *policy, execute, r@),
{
    let v = req.validate(policy);
    let ghost verdict = v;
    let r = respond(req, v, execute);
    assert(req.admits(*policy, verdict) && tool_answer(*req, verdict, execute, r@));
    r
}

} // verus!
