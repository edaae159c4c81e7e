//! The execution engine: evaluates an instance tree bottom-up, applying
//! negation and retry-with-backoff, emitting lifecycle events in order.
//! All outside work — file probes, shell commands, sleeps, the clock —
//! goes through a `CheckRunner`, which the surrounding program provides;
//! the engine's own logic is what this module verifies.
use vstd::prelude::*;

use crate::data::{ChkDef, ChkFnKind, ParsedDuration};
use crate::events::{ChkEventScope, ChkLifecycleEvent};
use crate::instance::{ChkInstance, ChkResult, RunEnv};
use crate::params::{ChkActualParams, ChkParamInternalValue};
use crate::strmap::entries_value_of;

verus! {

/// The outside work a run needs: probes of the machine, shell commands,
/// waiting, and a clock. Check bodies and hooks run through it; their
/// outcomes are whatever the world answers, so no method promises anything.
/// The engine is verified for every answer.
pub trait CheckRunner {
    /// Runs a leaf whose definition the library does not know (a
    /// user-registered check).
    fn run_leaf(&mut self, def: &ChkDef, params: &ChkActualParams, inst: &ChkInstance) -> ChkResult;

    /// Does a file-system entry exist at the path.
    fn fs_exists(&mut self, path: &String) -> bool;

    /// Is the file at the path executable.
    fn fs_executable(&mut self, path: &String) -> bool;

    /// Does the name resolve to an executable on the search path.
    fn on_search_path(&mut self, path: &String) -> bool;

    /// Runs a command through a shell, capturing its output.
    fn run_shell(&mut self, cmd: &String) -> ChkResult;

    /// Is the local port open.
    fn port_open(&mut self, port: u16) -> bool;

    /// Is the address ("host:port") reachable.
    fn port_addr_open(&mut self, addr: &String) -> bool;

    /// Runs a lifecycle hook command; a hook's failure never alters a
    /// check's outcome.
    fn run_hook(&mut self, hook_name: &str, cmd: &String);

    /// Blocks for the given delay between retry attempts.
    fn sleep(&mut self, delay: &ParsedDuration);

    /// A monotonic clock reading, in nanoseconds.
    fn now_nanos(&mut self) -> u64;
}

/// Whether the named parameter, if bound, is a plain string — what the
/// hook machinery needs of the five hook parameters.
pub open spec fn hook_param_ok(inst: ChkInstance, k: Seq<char>) -> bool {
    inst.actual_params.contains_key_spec(k) ==> entries_value_of(
        inst.actual_params@,
        k,
    ).value is PkString
}

/// What the engine needs of one instance, all of it guaranteed by a clean
/// type-check: well-formed parameter maps, string-valued hooks, the retry
/// parameters bound (with at least one attempt), and each leaf kind's own
/// parameter present with a usable tag.
pub open spec fn node_runnable(inst: ChkInstance) -> bool {
    &&& inst.actual_params.wf()
    &&& hook_param_ok(inst, "on_pass"@)
    &&& hook_param_ok(inst, "on_fail"@)
    &&& hook_param_ok(inst, "on_error"@)
    &&& hook_param_ok(inst, "on_init"@)
    &&& hook_param_ok(inst, "on_term"@)
    &&& inst.is_retrying ==> {
        &&& inst.actual_params.contains_key_spec("retries"@)
        &&& entries_value_of(inst.actual_params@, "retries"@).value matches
            ChkParamInternalValue::PkInt(i) && i >= 1
        &&& inst.actual_params.contains_key_spec("retry_delay"@)
        &&& entries_value_of(inst.actual_params@, "retry_delay"@).value is PkDuration
    }
    &&& leaf_args_ok(inst)
}

/// The per-kind argument the engine reads before handing work to the
/// runner.
pub open spec fn leaf_args_ok(inst: ChkInstance) -> bool {
    match inst.fn_def.check_fn {
        ChkFnKind::Agg(_) => true,
        ChkFnKind::FileExists | ChkFnKind::FileExecutable | ChkFnKind::FileOnPath => {
            &&& inst.actual_params.contains_key_spec("path"@)
            &&& (entries_value_of(inst.actual_params@, "path"@).value is PkString
                || entries_value_of(inst.actual_params@, "path"@).value is PkPath)
        },
        ChkFnKind::ShellCmd => inst.actual_params.contains_key_spec("cmd"@) && entries_value_of(
            inst.actual_params@,
            "cmd"@,
        ).value is PkString,
        ChkFnKind::PortOpen => inst.actual_params.contains_key_spec("port"@) && entries_value_of(
            inst.actual_params@,
            "port"@,
        ).value is PkInt,
        ChkFnKind::PortAddrOpen => inst.actual_params.contains_key_spec("addr_port"@)
            && entries_value_of(inst.actual_params@, "addr_port"@).value is PkString,
        ChkFnKind::ToolTemplate => {
            &&& inst.fn_def.template_params matches Some(tp) && tp.wf()
                && tp.contains_key_spec("cmd_template"@) && entries_value_of(
                tp@,
                "cmd_template"@,
            ).value is PkString
        },
        ChkFnKind::Custom => true,
    }
}

/// The engine's requirement on a whole tree.
pub open spec fn tree_runnable(inst: ChkInstance) -> bool
    decreases inst,
{
    &&& node_runnable(inst)
    &&& forall|j: int|
        0 <= j < inst.children@.len() ==> tree_runnable(#[trigger] inst.children@[j])
}

/// Decides whether one bound parameter, if present, is a plain string.
fn check_hook_param(inst: &ChkInstance, name: &str) -> (r: bool)
    requires
        inst.actual_params.wf(),
    ensures
        r == hook_param_ok(*inst, name@),
{
    match inst.actual_params.get(name) {
        Some(p) => match &p.value {
            ChkParamInternalValue::PkString(_) => true,
            _ => false,
        },
        None => true,
    }
}

/// Decides the engine's per-instance requirement at run time: well-formed
/// parameter maps, string hooks, retry parameters with at least one
/// attempt, and the leaf kind's own argument. The compiler's type-check
/// guarantees all of it except a positive retry count; a caller taking
/// trees from elsewhere tests here before running.
pub fn node_is_runnable(inst: &ChkInstance) -> (r: bool)
    ensures
        r == node_runnable(*inst),
{
    if !inst.actual_params.check_wf() {
        return false;
    }
    if !check_hook_param(inst, "on_pass") || !check_hook_param(inst, "on_fail")
        || !check_hook_param(inst, "on_error") || !check_hook_param(inst, "on_init")
        || !check_hook_param(inst, "on_term") {
        return false;
    }
    if inst.is_retrying {
        match inst.actual_params.get("retries") {
            Some(p) => match &p.value {
                ChkParamInternalValue::PkInt(i) => {
                    if *i < 1 {
                        return false;
                    }
                },
                _ => {
                    return false;
                },
            },
            None => {
                return false;
            },
        }
        match inst.actual_params.get("retry_delay") {
            Some(p) => match &p.value {
                ChkParamInternalValue::PkDuration(_) => {},
                _ => {
                    return false;
                },
            },
            None => {
                return false;
            },
        }
    }
    match inst.fn_def.check_fn {
        ChkFnKind::Agg(_) => true,
        ChkFnKind::FileExists | ChkFnKind::FileExecutable | ChkFnKind::FileOnPath => {
            match inst.actual_params.get("path") {
                Some(p) => match &p.value {
                    ChkParamInternalValue::PkString(_) => true,
                    ChkParamInternalValue::PkPath(_) => true,
                    _ => false,
                },
                None => false,
            }
        },
        ChkFnKind::ShellCmd => match inst.actual_params.get("cmd") {
            Some(p) => match &p.value {
                ChkParamInternalValue::PkString(_) => true,
                _ => false,
            },
            None => false,
        },
        ChkFnKind::PortOpen => match inst.actual_params.get("port") {
            Some(p) => match &p.value {
                ChkParamInternalValue::PkInt(_) => true,
                _ => false,
            },
            None => false,
        },
        ChkFnKind::PortAddrOpen => match inst.actual_params.get("addr_port") {
            Some(p) => match &p.value {
                ChkParamInternalValue::PkString(_) => true,
                _ => false,
            },
            None => false,
        },
        ChkFnKind::ToolTemplate => match &inst.fn_def.template_params {
            Some(tp) => {
                if !tp.check_wf() {
                    false
                } else {
                    match tp.get("cmd_template") {
                        Some(ct) => match &ct.value {
                            ChkParamInternalValue::PkString(_) => true,
                            _ => false,
                        },
                        None => false,
                    }
                }
            },
            None => false,
        },
        ChkFnKind::Custom => true,
    }
}

/// Decides the engine's requirement over a whole tree.
pub fn tree_is_runnable(inst: &ChkInstance) -> (r: bool)
    ensures
        r == tree_runnable(*inst),
    decreases *inst,
{
    if !node_is_runnable(inst) {
        return false;
    }
    let n = inst.children.len();
    let mut j: usize = 0;
    while j < n
        invariant
            j <= n,
            n == inst.children@.len(),
            node_runnable(*inst),
            forall|l: int| 0 <= l < j ==> tree_runnable(#[trigger] inst.children@[l]),
        decreases n - j,
    {
        let ghost jj = j as int;
        proof {
            assert(decreases_to!(*inst => inst.children));
            assert(decreases_to!(inst.children => inst.children[jj]));
        }
        if !tree_is_runnable(&inst.children[j]) {
            return false;
        }
        j = j + 1;
    }
    true
}

/// The data a tool's template renders over: each actual parameter's name
/// paired with its rendered text, in entry order.
pub open spec fn render_data_of(inst: ChkInstance) -> Seq<(Seq<char>, Seq<char>)> {
    Seq::new(
        inst.actual_params@.len(),
        |i: int|
            (
                inst.actual_params@[i].0,
                crate::params::value_rendered(inst.actual_params@[i].1.value),
            ),
    )
}

/// The command template a tool definition carries.
pub open spec fn tool_template_text(inst: ChkInstance) -> Seq<char> {
    entries_value_of(inst.fn_def.template_params->0@, "cmd_template"@).value->PkString_0@
}

/// The ghost hook-log entries one hook run contributes: one entry when the
/// instance binds the hook, none otherwise.
pub open spec fn hook_rec(inst: ChkInstance, k: Seq<char>) -> Seq<(crate::ChkInstId, Seq<char>)> {
    if inst.actual_params.contains_key_spec(k) {
        seq![(inst.instance_id as crate::ChkInstId, k)]
    } else {
        Seq::empty()
    }
}

/// The hook an outcome selects: `on_pass`, `on_fail` or `on_error`, by the
/// outcome trichotomy.
pub open spec fn outcome_hook_name(r: ChkResult) -> Seq<char> {
    match r.result {
        Ok(b) => if b {
            "on_pass"@
        } else {
            "on_fail"@
        },
        Err(_) => "on_error"@,
    }
}

/// The retry count a retrying instance binds.
pub open spec fn retries_of(inst: ChkInstance) -> int {
    entries_value_of(inst.actual_params@, "retries"@).value->PkInt_0 as int
}

/// The delay a retrying instance binds.
pub open spec fn delay_of(inst: ChkInstance) -> ParsedDuration {
    entries_value_of(inst.actual_params@, "retry_delay"@).value->PkDuration_0
}

/// One attempt's event bracket: `CheckStart` at `.0`, the verdict event at
/// `.1`, `CheckFinish` right after it at `.2`.
pub open spec fn attempt_mark_ok(
    post: Seq<ChkLifecycleEvent>,
    id: crate::ChkInstId,
    m: (int, int, int),
) -> bool {
    &&& 0 <= m.0 < m.1
    &&& m.1 + 1 == m.2
    &&& m.2 < post.len()
    &&& post[m.0] == ChkLifecycleEvent::CheckStart(id)
    &&& (post[m.2] matches ChkLifecycleEvent::CheckFinish(fid, _) && fid == id)
}

/// The whole observable shape of a retrying run: `k` attempt brackets with
/// exactly one `CheckRetrySleep`/`CheckRetry` pair between consecutive
/// attempts, every attempt before the last one not a pass, the returned
/// outcome being the last attempt's verdict, and the loop stopping early
/// only on a pass.
pub open spec fn retry_trace_ok(
    pre_len: int,
    post: Seq<ChkLifecycleEvent>,
    id: crate::ChkInstId,
    marks: Seq<(int, int, int)>,
    r: ChkResult,
    rr: int,
    d: ParsedDuration,
) -> bool {
    let k = marks.len() as int;
    &&& 1 <= k <= rr
    &&& marks[0].0 == pre_len
    &&& forall|j: int| 0 <= j < k ==> attempt_mark_ok(post, id, #[trigger] marks[j])
    &&& forall|j: int|
        #![trigger marks[j]]
        0 <= j < k - 1 ==> {
            &&& post[marks[j].2 + 1] == ChkLifecycleEvent::CheckRetrySleep(id, d)
            &&& post[marks[j].2 + 2] == ChkLifecycleEvent::CheckRetry(id, (j + 1) as u64)
            &&& marks[j + 1].0 == marks[j].2 + 3
            &&& post[marks[j].1] != ChkLifecycleEvent::CheckPass(id)
        }
    &&& post[marks[k - 1].1] == ChkEventScope::result_event(id, r)
    &&& post.len() == marks[k - 1].2 + 1
    &&& (k == rr || r.result == Ok::<bool, String>(true))
}

/// Each child's event bracket inside a group's evaluation, in declaration
/// order: child `j`'s `CheckStart` at `.0` and its verdict event — the one
/// matching the `j`-th collected outcome — at `.1`.
pub open spec fn child_marks_ok(
    pre_len: int,
    post: Seq<ChkLifecycleEvent>,
    children: Seq<ChkInstance>,
    crs: Seq<ChkResult>,
    marks: Seq<(int, int)>,
) -> bool {
    &&& marks.len() == children.len()
    &&& crs.len() == children.len()
    &&& forall|j: int|
        #![trigger marks[j]]
        0 <= j < marks.len() ==> {
            &&& pre_len <= marks[j].0 < marks[j].1 < post.len()
            &&& post[marks[j].0] == ChkLifecycleEvent::CheckStart(children[j].instance_id)
            &&& post[marks[j].1] == ChkEventScope::result_event(children[j].instance_id, crs[j])
        }
    &&& forall|j: int| #![trigger marks[j]] 0 <= j < marks.len() - 1 ==> marks[j].1 < marks[j + 1].0
}

/// How a file run's events relate to its root checks: after the opening
/// event at `base`, each root contributes, in declaration order, a start
/// event and a verdict event of its own id.
pub open spec fn root_marks_ok(
    base: int,
    post: Seq<ChkLifecycleEvent>,
    roots: Seq<ChkInstance>,
    marks: Seq<(int, int)>,
) -> bool {
    &&& marks.len() == roots.len()
    &&& forall|j: int|
        #![trigger marks[j]]
        0 <= j < marks.len() ==> {
            &&& base < marks[j].0 < marks[j].1 < post.len()
            &&& post[marks[j].0] == ChkLifecycleEvent::CheckStart(roots[j].instance_id)
            &&& (post[marks[j].1] == ChkLifecycleEvent::CheckPass(roots[j].instance_id)
                || post[marks[j].1] == ChkLifecycleEvent::CheckFail(roots[j].instance_id)
                || post[marks[j].1] == ChkLifecycleEvent::CheckError(roots[j].instance_id))
        }
    &&& forall|j: int| #![trigger marks[j]] 0 <= j < marks.len() - 1 ==> marks[j].1 < marks[j + 1].0
}

/// Negation inverts a boolean outcome; an execution error passes through
/// untouched, and an unnegated result is returned as it is.
pub fn apply_negation(negated: bool, r: ChkResult) -> (out: ChkResult)
    ensures
        out.process_out == r.process_out,
        out.children_results == r.children_results,
        !negated ==> out.result == r.result,
        negated ==> match r.result {
            Ok(b) => out.result == Ok::<bool, String>(!b),
            Err(_) => out.result == r.result,
        },
{
    if negated {
        match r.result {
            Ok(b) => ChkResult {
                result: Ok(!b),
                process_out: r.process_out,
                children_results: r.children_results,
            },
            Err(e) => ChkResult {
                result: Err(e),
                process_out: r.process_out,
                children_results: r.children_results,
            },
        }
    } else {
        r
    }
}

impl<'a> ChkInstance<'a> {
    /// Runs the named hook's shell command if the instance binds it. Hooks
    /// are fire and forget: nothing of the check's outcome changes here; the
    /// run is recorded in the context's ghost hook log.
    fn run_hook_if_defined<R: CheckRunner>(
        &self,
        run_env: &mut RunEnv,
        runner: &mut R,
        hook_name: &str,
    )
        requires
            self.actual_params.wf(),
            hook_param_ok(*self, hook_name@),
        ensures
            final(run_env).events == old(run_env).events,
            final(run_env).global_config == old(run_env).global_config,
            final(run_env).hook_log@ == old(run_env).hook_log@ + hook_rec(*self, hook_name@),
    {
        match self.actual_params.get(hook_name) {
            Some(p) => {
                match &p.value {
                    ChkParamInternalValue::PkString(s) => runner.run_hook(hook_name, s),
                    _ => vstd::pervasive::unreached(),
                }
                proof {
                    run_env.hook_log@ = run_env.hook_log@.push(
                        (self.instance_id as crate::ChkInstId, hook_name@),
                    );
                    assert(run_env.hook_log@ =~= old(run_env).hook_log@ + hook_rec(
                        *self,
                        hook_name@,
                    ));
                }
            },
            None => {
                proof {
                    assert(run_env.hook_log@ =~= old(run_env).hook_log@ + hook_rec(
                        *self,
                        hook_name@,
                    ));
                }
            },
        }
    }

    /// Runs the hook that belongs to this outcome: `on_pass`, `on_fail` or
    /// `on_error`, mutually exclusive by the outcome trichotomy.
    fn eval_result_for_hook<R: CheckRunner>(&self, run_env: &mut RunEnv, runner: &mut R, r: &ChkResult)
        requires
            node_runnable(*self),
        ensures
            final(run_env).events == old(run_env).events,
            final(run_env).global_config == old(run_env).global_config,
            final(run_env).hook_log@ == old(run_env).hook_log@ + hook_rec(
                *self,
                outcome_hook_name(*r),
            ),
    {
        if r.is_check_pass() {
            self.run_hook_if_defined(run_env, runner, "on_pass");
        } else if r.is_check_fail() {
            self.run_hook_if_defined(run_env, runner, "on_fail");
        } else {
            // An outcome is a boolean or an error; the first two arms took
            // the booleans.
            proof {
                if r.result is Ok {
                    let b = r.result->Ok_0;
                    assert(r.result == Ok::<bool, String>(b));
                }
            }
            self.run_hook_if_defined(run_env, runner, "on_error");
        }
    }

    /// Announces the wait before the next attempt, sleeps through it, and
    /// announces the attempt that follows.
    fn sleep_and_emit_retry_events<R: CheckRunner>(
        &self,
        run_env: &mut RunEnv,
        runner: &mut R,
        retry_delay: &ParsedDuration,
        attempt_num: u64,
    )
        ensures
            final(run_env).events@ == old(run_env).events@.push(
                ChkLifecycleEvent::CheckRetrySleep(self.instance_id, *retry_delay),
            ).push(ChkLifecycleEvent::CheckRetry(self.instance_id, attempt_num)),
            final(run_env).global_config == old(run_env).global_config,
            final(run_env).hook_log == old(run_env).hook_log,
    {
        run_env.emit(ChkLifecycleEvent::CheckRetrySleep(self.instance_id, retry_delay.clone()));
        runner.sleep(retry_delay);
        run_env.emit(ChkLifecycleEvent::CheckRetry(self.instance_id, attempt_num));
    }

    /// The shell command a tool instance runs: its definition's
    /// `cmd_template`, rendered over the actual parameter values by name.
    /// The result is pinned to the renderer's outcome on exactly that
    /// template and data; a failed rendering reports the renderer's error
    /// behind a fixed prefix.
    fn tool_command(&self) -> (r: Result<String, String>)
        requires
            self.fn_def.check_fn is ToolTemplate,
            node_runnable(*self),
        ensures
            r is Ok <==> crate::foreign::rendered_template(
                tool_template_text(*self),
                render_data_of(*self),
            ) is Some,
            crate::foreign::rendered_template(
                tool_template_text(*self),
                render_data_of(*self),
            ) matches Some(c) ==> (r matches Ok(cmd) && cmd@ == c),
            r matches Err(m) ==> (m@.len() >= "Error rendering template: "@.len()
                && m@.subrange(0, "Error rendering template: "@.len() as int)
                == "Error rendering template: "@),
    {
        let tp = match &self.fn_def.template_params {
            Some(tp) => tp,
            None => vstd::pervasive::unreached(),
        };
        let ct = match tp.get("cmd_template") {
            Some(ct) => ct,
            None => vstd::pervasive::unreached(),
        };
        let tpl = ct.get_string();
        let mut data: Vec<(String, String)> = Vec::new();
        let n = self.actual_params.len();
        let mut i: usize = 0;
        while i < n
            invariant
                i <= n,
                n == self.actual_params@.len(),
                data@.len() == i,
                forall|l: int|
                    0 <= l < i ==> (#[trigger] data@[l]).0@ == self.actual_params@[l].0
                        && data@[l].1@ == crate::params::value_rendered(
                        self.actual_params@[l].1.value,
                    ),
            decreases n - i,
        {
            let entry = self.actual_params.entry_at(i);
            data.push((entry.0.clone(), entry.1.value_as_string()));
            i = i + 1;
        }
        proof {
            assert(Seq::new(data@.len(), |l: int| (data@[l].0@, data@[l].1@)) =~= render_data_of(
                *self,
            ));
        }
        match crate::foreign::render_template(tpl, &data) {
            Ok(rendered_cmd) => Ok(rendered_cmd),
            Err(e) => {
                let msg = String::from_str("Error rendering template: ").concat(e.as_str());
                proof {
                    assert(msg@.subrange(0, "Error rendering template: "@.len() as int)
                        =~= "Error rendering template: "@);
                }
                Err(msg)
            },
        }
    }

    /// Reads the per-kind argument and hands the outside work to the
    /// runner. Only leaf kinds come here; what the runner answers is the
    /// check's raw outcome.
    fn run_leaf<R: CheckRunner>(&self, runner: &mut R) -> (r: ChkResult)
        requires
            node_runnable(*self),
            !(self.fn_def.check_fn is Agg),
        ensures
            (self.fn_def.check_fn is FileExists || self.fn_def.check_fn is FileExecutable
                || self.fn_def.check_fn is FileOnPath || self.fn_def.check_fn is PortAddrOpen)
                ==> r.result is Ok,
            self.fn_def.check_fn is PortOpen ==> {
                let v = entries_value_of(self.actual_params@, "port"@).value->PkInt_0;
                &&& ((v < 0 || v > 65535) <==> r.result is Err)
                &&& ((v < 0 || v > 65535) ==> (r.result matches Err(m) && m@
                    == "port must be >= 0 && <= 65535)"@))
            },
            (self.fn_def.check_fn is ToolTemplate && crate::foreign::rendered_template(
                tool_template_text(*self),
                render_data_of(*self),
            ) is None) ==> (r.result matches Err(m) && m@.len()
                >= "Error rendering template: "@.len() && m@.subrange(
                0,
                "Error rendering template: "@.len() as int,
            ) == "Error rendering template: "@),
    {
        match self.fn_def.check_fn {
            ChkFnKind::Agg(_) => vstd::pervasive::unreached(),
            ChkFnKind::FileExists => {
                let p = match self.actual_params.get("path") {
                    Some(p) => p,
                    None => vstd::pervasive::unreached(),
                };
                match p.get_path() {
                    Ok(path) => {
                        let o = runner.fs_exists(&path);
                        ChkResult { result: Ok(o), process_out: None, children_results: None }
                    },
                    Err(e) => ChkResult {
                        result: Err(e),
                        process_out: None,
                        children_results: None,
                    },
                }
            },
            ChkFnKind::FileExecutable => {
                let p = match self.actual_params.get("path") {
                    Some(p) => p,
                    None => vstd::pervasive::unreached(),
                };
                let text = match &p.value {
                    ChkParamInternalValue::PkString(s) => s,
                    ChkParamInternalValue::PkPath(s) => s,
                    _ => vstd::pervasive::unreached(),
                };
                let is_exec = runner.fs_executable(text);
                ChkResult { result: Ok(is_exec), process_out: None, children_results: None }
            },
            ChkFnKind::FileOnPath => {
                let p = match self.actual_params.get("path") {
                    Some(p) => p,
                    None => vstd::pervasive::unreached(),
                };
                let text = match &p.value {
                    ChkParamInternalValue::PkString(s) => s,
                    ChkParamInternalValue::PkPath(s) => s,
                    _ => vstd::pervasive::unreached(),
                };
                let w = runner.on_search_path(text);
                ChkResult { result: Ok(w), process_out: None, children_results: None }
            },
            ChkFnKind::ShellCmd => {
                let p = match self.actual_params.get("cmd") {
                    Some(p) => p,
                    None => vstd::pervasive::unreached(),
                };
                let cmd = match &p.value {
                    ChkParamInternalValue::PkString(s) => s,
                    _ => vstd::pervasive::unreached(),
                };
                runner.run_shell(cmd)
            },
            ChkFnKind::PortOpen => {
                let p = match self.actual_params.get("port") {
                    Some(p) => p,
                    None => vstd::pervasive::unreached(),
                };
                let port = p.get_int();
                if !(0 <= port && port <= 65535) {
                    ChkResult {
                        result: Err(String::from_str("port must be >= 0 && <= 65535)")),
                        process_out: None,
                        children_results: None,
                    }
                } else {
                    let v = runner.port_open(port as u16);
                    ChkResult { result: Ok(v), process_out: None, children_results: None }
                }
            },
            ChkFnKind::PortAddrOpen => {
                let p = match self.actual_params.get("addr_port") {
                    Some(p) => p,
                    None => vstd::pervasive::unreached(),
                };
                let addr = match &p.value {
                    ChkParamInternalValue::PkString(s) => s,
                    _ => vstd::pervasive::unreached(),
                };
                let v = runner.port_addr_open(addr);
                ChkResult { result: Ok(v), process_out: None, children_results: None }
            },
            ChkFnKind::ToolTemplate => {
                match self.tool_command() {
                    Ok(rendered_cmd) => runner.run_shell(&rendered_cmd),
                    Err(msg) => ChkResult {
                        result: Err(msg),
                        process_out: None,
                        children_results: None,
                    },
                }
            },
            ChkFnKind::Custom => runner.run_leaf(self.fn_def, &self.actual_params, self),
        }
    }

    /// One evaluation of this instance: opens the event scope, runs the
    /// aggregation or the leaf work, applies negation to a boolean verdict
    /// (an error passes through untouched), emits exactly one verdict
    /// event, and closes the scope.
    pub fn exec<R: CheckRunner>(&self, run_env: &mut RunEnv, runner: &mut R) -> (r: ChkResult)
        requires
            tree_runnable(*self),
        ensures
            old(run_env).events@.is_prefix_of(final(run_env).events@),
            final(run_env).events@.len() >= old(run_env).events@.len() + 3,
            final(run_env).events@[old(run_env).events@.len() as int]
                == ChkLifecycleEvent::CheckStart(self.instance_id),
            final(run_env).events@.last() matches ChkLifecycleEvent::CheckFinish(id, _) && id
                == self.instance_id,
            final(run_env).events@[final(run_env).events@.len() - 2] == ChkEventScope::result_event(
                self.instance_id,
                r,
            ),
            final(run_env).global_config == old(run_env).global_config,
            old(run_env).hook_log@.is_prefix_of(final(run_env).hook_log@),
            (self.fn_def.check_fn is Agg && self.children@.len() == 0) ==> r.result is Err,
        decreases *self, 1int,
    {
        let now = runner.now_nanos();
        let ghost ev0 = run_env.events@;
        let chk_scope = run_env.new_check_scope(self.instance_id, now);
        let ghost ev1 = run_env.events@;
        let check_run = match self.fn_def.check_fn {
            ChkFnKind::Agg(agg) => crate::builtin::agg_exec(
                agg,
                run_env,
                &self.actual_params,
                self,
                runner,
            ),
            _ => self.run_leaf(runner),
        };
        let ghost ev2 = run_env.events@;
        let final_res = apply_negation(self.negated, check_run);
        chk_scope.emit_result(run_env, &final_res);
        let end = runner.now_nanos();
        chk_scope.finish(run_env, end);
        proof {
            assert(ev1 == ev0.push(ChkLifecycleEvent::CheckStart(self.instance_id)));
            assert(ev1.is_prefix_of(ev2));
            assert(ev2[ev0.len() as int] == ChkLifecycleEvent::CheckStart(self.instance_id)) by {
                assert(ev1 =~= ev2.subrange(0, ev1.len() as int));
                assert(ev2.subrange(0, ev1.len() as int)[ev0.len() as int] == ev2[ev0.len() as int]);
            }
            assert(run_env.events@ == ev2.push(
                ChkEventScope::result_event(self.instance_id, final_res),
            ).push(run_env.events@.last()));
            assert(run_env.events@.last() matches ChkLifecycleEvent::CheckFinish(id, _) && id
                == self.instance_id);
            assert forall|q: int| 0 <= q < ev1.len() implies ev2[q] == ev1[q] by {
                assert(ev2.subrange(0, ev1.len() as int)[q] == ev2[q]);
            }
            assert(ev0.is_prefix_of(run_env.events@)) by {
                assert(ev0 =~= run_env.events@.subrange(0, ev0.len() as int));
            }
            assert(run_env.events@[ev0.len() as int] == ChkLifecycleEvent::CheckStart(
                self.instance_id,
            ));
            assert(old(run_env).hook_log@.is_prefix_of(run_env.hook_log@)) by {
                assert(old(run_env).hook_log@ =~= run_env.hook_log@.subrange(
                    0,
                    old(run_env).hook_log@.len() as int,
                ));
            }
        }
        final_res
    }

    /// One attempt with its hooks: `on_init`, the evaluation, the
    /// outcome's own hook, `on_term`.
    fn run_check_no_retry<R: CheckRunner>(&self, run_env: &mut RunEnv, runner: &mut R) -> (r:
        ChkResult)
        requires
            tree_runnable(*self),
        ensures
            old(run_env).events@.is_prefix_of(final(run_env).events@),
            final(run_env).events@.len() >= old(run_env).events@.len() + 3,
            final(run_env).events@[old(run_env).events@.len() as int]
                == ChkLifecycleEvent::CheckStart(self.instance_id),
            final(run_env).events@.last() matches ChkLifecycleEvent::CheckFinish(id, _) && id
                == self.instance_id,
            final(run_env).events@[final(run_env).events@.len() - 2] == ChkEventScope::result_event(
                self.instance_id,
                r,
            ),
            final(run_env).global_config == old(run_env).global_config,
            exists|mid: Seq<(crate::ChkInstId, Seq<char>)>|
                final(run_env).hook_log@ == old(run_env).hook_log@ + hook_rec(*self, "on_init"@)
                    + mid + hook_rec(*self, outcome_hook_name(r)) + hook_rec(*self, "on_term"@),
        decreases *self, 2int,
    {
        self.run_hook_if_defined(run_env, runner, "on_init");
        let ghost h1 = run_env.hook_log@;
        let r = self.exec(run_env, runner);
        let ghost h2 = run_env.hook_log@;
        self.eval_result_for_hook(run_env, runner, &r);
        self.run_hook_if_defined(run_env, runner, "on_term");
        proof {
            let mid = h2.skip(h1.len() as int);
            assert(h2 =~= h1 + mid) by {
                assert(h1 =~= h2.subrange(0, h1.len() as int));
            }
            assert(run_env.hook_log@ =~= old(run_env).hook_log@ + hook_rec(*self, "on_init"@)
                + mid + hook_rec(*self, outcome_hook_name(r)) + hook_rec(*self, "on_term"@));
        }
        r
    }

    /// Runs the instance, retrying when it asks for it: up to `retries`
    /// attempts, sleeping `retry_delay` between them (each wait bracketed
    /// by `CheckRetrySleep` and `CheckRetry` events), stopping early at the
    /// first passing attempt; the returned outcome is the last attempt's.
    /// The outcome hook of the final attempt runs twice, which the engine
    /// keeps deliberately.
    pub fn run_check_maybe_retry<R: CheckRunner>(&self, run_env: &mut RunEnv, runner: &mut R) -> (r:
        ChkResult)
        requires
            tree_runnable(*self),
        ensures
            old(run_env).events@.is_prefix_of(final(run_env).events@),
            final(run_env).events@.len() >= old(run_env).events@.len() + 3,
            final(run_env).events@[old(run_env).events@.len() as int]
                == ChkLifecycleEvent::CheckStart(self.instance_id),
            final(run_env).events@.last() matches ChkLifecycleEvent::CheckFinish(id, _) && id
                == self.instance_id,
            final(run_env).events@[final(run_env).events@.len() - 2] == ChkEventScope::result_event(
                self.instance_id,
                r,
            ),
            final(run_env).global_config == old(run_env).global_config,
            !self.is_retrying ==> exists|mid: Seq<(crate::ChkInstId, Seq<char>)>|
                final(run_env).hook_log@ == old(run_env).hook_log@ + hook_rec(*self, "on_init"@)
                    + mid + hook_rec(*self, outcome_hook_name(r)) + hook_rec(*self, "on_term"@),
            self.is_retrying ==> exists|marks: Seq<(int, int, int)>|
                retry_trace_ok(
                    old(run_env).events@.len() as int,
                    final(run_env).events@,
                    self.instance_id,
                    marks,
                    r,
                    retries_of(*self),
                    delay_of(*self),
                ),
            self.is_retrying ==> exists|mid: Seq<(crate::ChkInstId, Seq<char>)>|
                final(run_env).hook_log@ == old(run_env).hook_log@ + hook_rec(*self, "on_init"@)
                    + mid + hook_rec(*self, outcome_hook_name(r)) + hook_rec(
                    *self,
                    outcome_hook_name(r),
                ) + hook_rec(*self, "on_term"@),
        decreases *self, 3int,
    {
        if !self.is_retrying {
            return self.run_check_no_retry(run_env, runner);
        }

        // Both parameters were validated by the compiler; no re-validation
        // happens here.
        let retries_p = match self.actual_params.get("retries") {
            Some(p) => p,
            None => vstd::pervasive::unreached(),
        };
        let retries_i = retries_p.get_int();
        let retries: u64 = retries_i as u64;
        let delay_p = match self.actual_params.get("retry_delay") {
            Some(p) => p,
            None => vstd::pervasive::unreached(),
        };
        let retry_delay = match &delay_p.value {
            ChkParamInternalValue::PkDuration(d) => d.clone(),
            _ => vstd::pervasive::unreached(),
        };
        proof {
            assert(retries as int == retries_of(*self));
            assert(retry_delay == delay_of(*self));
        }

        self.run_hook_if_defined(run_env, runner, "on_init");

        let ghost old_len = run_env.events@.len() as int;
        let ghost after_init_hooks = run_env.hook_log@;
        let ghost id = self.instance_id as crate::ChkInstId;
        let ghost mut marks: Seq<(int, int, int)> = Seq::empty();
        let mut attempt_num: u64 = 1;
        loop
            invariant
                tree_runnable(*self),
                self.is_retrying,
                retries as int == retries_of(*self),
                retry_delay == delay_of(*self),
                id == self.instance_id,
                1 <= attempt_num <= retries,
                marks.len() == attempt_num - 1,
                old(run_env).events@.is_prefix_of(run_env.events@),
                old_len == old(run_env).events@.len(),
                run_env.global_config == old(run_env).global_config,
                after_init_hooks == old(run_env).hook_log@ + hook_rec(*self, "on_init"@),
                after_init_hooks.is_prefix_of(run_env.hook_log@),
                marks.len() == 0 ==> run_env.events@.len() == old_len,
                marks.len() > 0 ==> run_env.events@.len() == marks.last().2 + 3,
                marks.len() > 0 ==> marks[0].0 == old_len,
                forall|j: int|
                    0 <= j < marks.len() ==> attempt_mark_ok(
                        run_env.events@,
                        id,
                        #[trigger] marks[j],
                    ),
                forall|j: int|
                    #![trigger marks[j]]
                    0 <= j < marks.len() ==> {
                        &&& run_env.events@[marks[j].2 + 1] == ChkLifecycleEvent::CheckRetrySleep(
                            id,
                            delay_of(*self),
                        )
                        &&& run_env.events@[marks[j].2 + 2] == ChkLifecycleEvent::CheckRetry(
                            id,
                            (j + 1) as u64,
                        )
                        &&& run_env.events@[marks[j].1] != ChkLifecycleEvent::CheckPass(id)
                    },
                forall|j: int|
                    #![trigger marks[j]]
                    0 <= j < marks.len() - 1 ==> marks[j + 1].0 == marks[j].2 + 3,
            decreases retries - attempt_num,
        {
            let ghost pre_events = run_env.events@;
            let attempt_result = self.exec(run_env, runner);
            let ghost post_events = run_env.events@;
            let ghost post_hooks = run_env.hook_log@;
            let ghost m_new = (
                pre_events.len() as int,
                post_events.len() - 2,
                post_events.len() - 1,
            );
            proof {
                crate::events::lemma_log_extension(pre_events, post_events);
                assert(attempt_mark_ok(post_events, id, m_new));
                assert forall|j: int| 0 <= j < marks.len() implies attempt_mark_ok(
                    post_events,
                    id,
                    #[trigger] marks[j],
                ) by {}
                assert forall|j: int|
                    #![trigger marks[j]]
                    0 <= j < marks.len() implies {
                    &&& post_events[marks[j].2 + 1] == ChkLifecycleEvent::CheckRetrySleep(
                        id,
                        delay_of(*self),
                    )
                    &&& post_events[marks[j].2 + 2] == ChkLifecycleEvent::CheckRetry(
                        id,
                        (j + 1) as u64,
                    )
                    &&& post_events[marks[j].1] != ChkLifecycleEvent::CheckPass(id)
                } by {}
                assert(after_init_hooks.is_prefix_of(post_hooks)) by {
                    assert(after_init_hooks =~= post_hooks.subrange(
                        0,
                        after_init_hooks.len() as int,
                    ));
                }
                marks = marks.push(m_new);
            }
            self.eval_result_for_hook(run_env, runner, &attempt_result);
            if attempt_num == retries || attempt_result.is_check_pass() {
                // The outcome hook of the final attempt runs a second
                // time; the duplication is deliberate.
                self.eval_result_for_hook(run_env, runner, &attempt_result);
                self.run_hook_if_defined(run_env, runner, "on_term");
                proof {
                    assert(retry_trace_ok(
                        old_len,
                        run_env.events@,
                        id,
                        marks,
                        attempt_result,
                        retries_of(*self),
                        delay_of(*self),
                    ));
                    let mid = post_hooks.skip(after_init_hooks.len() as int);
                    assert(post_hooks =~= after_init_hooks + mid) by {
                        assert(after_init_hooks =~= post_hooks.subrange(
                            0,
                            after_init_hooks.len() as int,
                        ));
                    }
                    assert(run_env.hook_log@ =~= old(run_env).hook_log@ + hook_rec(
                        *self,
                        "on_init"@,
                    ) + mid + hook_rec(*self, outcome_hook_name(attempt_result)) + hook_rec(
                        *self,
                        outcome_hook_name(attempt_result),
                    ) + hook_rec(*self, "on_term"@));
                }
                return attempt_result;
            }
            let ghost pre_sleep = run_env.events@;
            self.sleep_and_emit_retry_events(run_env, runner, &retry_delay, attempt_num);
            proof {
                crate::events::lemma_log_extension(pre_sleep, run_env.events@);
                assert(run_env.events@[marks.last().2 + 1]
                    == ChkLifecycleEvent::CheckRetrySleep(id, delay_of(*self)));
                assert(run_env.events@[marks.last().2 + 2] == ChkLifecycleEvent::CheckRetry(
                    id,
                    attempt_num,
                ));
                assert(run_env.events@[marks.last().1] != ChkLifecycleEvent::CheckPass(id));
                assert forall|j: int| 0 <= j < marks.len() implies attempt_mark_ok(
                    run_env.events@,
                    id,
                    #[trigger] marks[j],
                ) by {}
                assert(old(run_env).events@.is_prefix_of(run_env.events@)) by {
                    assert(old(run_env).events@ =~= run_env.events@.subrange(0, old_len));
                }
            }
            attempt_num = attempt_num + 1;
        }
    }
}

/// Runs every root instance of a compiled file, in order: announces the
/// file with an `Init` event carrying a description of every instance, runs
/// the roots through the retry and negation machinery, and closes with a
/// `Term` event after all of them finished. The file passes only when every
/// root ran to a passing outcome; a failing or erroring root fails it.
#[verifier::rlimit(80)]
#[verifier::spinoff_prover]
pub fn run_checks<'a, R: CheckRunner>(
    root_checks: &Vec<ChkInstance<'a>>,
    filename: Option<String>,
    run_env: &mut RunEnv,
    runner: &mut R,
) -> (r: bool)
    requires
        forall|l: int|
            0 <= l < root_checks@.len() ==> tree_runnable(#[trigger] root_checks@[l]),
        forall|p: int, q: int|
            0 <= p < q < crate::instance::forest_ids(root_checks@).len()
                ==> crate::instance::forest_ids(root_checks@)[p] != crate::instance::forest_ids(
                root_checks@,
            )[q],
    ensures
        old(run_env).events@.is_prefix_of(final(run_env).events@),
        final(run_env).events@.len() >= old(run_env).events@.len() + 2,
        (final(run_env).events@[old(run_env).events@.len() as int]
            matches ChkLifecycleEvent::Init(m, f) && f == filename && (forall|l: int|
            0 <= l < root_checks@.len() ==> crate::events::descs_cover_tree(
                m@,
                #[trigger] root_checks@[l],
                true,
            ))),
        final(run_env).events@.last() matches ChkLifecycleEvent::Term(f) && f == filename,
        final(run_env).global_config == old(run_env).global_config,
        old(run_env).hook_log@.is_prefix_of(final(run_env).hook_log@),
        exists|marks: Seq<(int, int)>|
            {
                &&& root_marks_ok(
                    old(run_env).events@.len() as int,
                    final(run_env).events@,
                    root_checks@,
                    marks,
                )
                &&& r == (forall|j: int|
                    #![trigger marks[j]]
                    0 <= j < marks.len() ==> final(run_env).events@[marks[j].1]
                        == ChkLifecycleEvent::CheckPass(root_checks@[j].instance_id))
            },
{
    let descs = crate::events::desc_from_instances(root_checks);
    let fname = crate::compiler::duplicate_filename(&filename);
    run_env.emit(ChkLifecycleEvent::Init(descs, fname));
    let ghost after_init = run_env.events@;
    let ghost base = old(run_env).events@.len() as int;
    let ghost mut marks: Seq<(int, int)> = Seq::empty();

    let mut final_result = true;
    let n = root_checks.len();
    let mut i: usize = 0;
    while i < n
        invariant
            i <= n,
            n == root_checks@.len(),
            forall|l: int|
                0 <= l < root_checks@.len() ==> tree_runnable(#[trigger] root_checks@[l]),
            after_init.is_prefix_of(run_env.events@),
            after_init.len() >= 1,
            base == after_init.len() - 1,
            run_env.global_config == old(run_env).global_config,
            old(run_env).hook_log@.is_prefix_of(run_env.hook_log@),
            marks.len() == i,
            forall|j: int|
                #![trigger marks[j]]
                0 <= j < marks.len() ==> {
                    &&& base < marks[j].0 < marks[j].1 < run_env.events@.len()
                    &&& run_env.events@[marks[j].0] == ChkLifecycleEvent::CheckStart(
                        root_checks@[j].instance_id,
                    )
                    &&& (run_env.events@[marks[j].1] == ChkLifecycleEvent::CheckPass(
                        root_checks@[j].instance_id,
                    ) || run_env.events@[marks[j].1] == ChkLifecycleEvent::CheckFail(
                        root_checks@[j].instance_id,
                    ) || run_env.events@[marks[j].1] == ChkLifecycleEvent::CheckError(
                        root_checks@[j].instance_id,
                    ))
                },
            forall|j: int|
                #![trigger marks[j]]
                0 <= j < marks.len() - 1 ==> marks[j].1 < marks[j + 1].0,
            final_result == (forall|j: int|
                #![trigger marks[j]]
                0 <= j < marks.len() ==> run_env.events@[marks[j].1]
                    == ChkLifecycleEvent::CheckPass(root_checks@[j].instance_id)),
        decreases n - i,
    {
        let ghost pre_evs = run_env.events@;
        let ghost prev_result = final_result;
        let res = root_checks[i].run_check_maybe_retry(run_env, runner);
        if !res.is_check_pass() {
            // A fail or an error: either way the file does not pass.
            final_result = false;
        }
        proof {
            crate::events::lemma_log_extension(pre_evs, run_env.events@);
            assert forall|j: int|
                #![trigger marks[j]]
                0 <= j < marks.len() implies run_env.events@[marks[j].1] == pre_evs[marks[j].1]
                by {}
            assert forall|q: int| 0 <= q < after_init.len() implies run_env.events@[q]
                == after_init[q] by {
                assert(pre_evs.subrange(0, after_init.len() as int)[q] == pre_evs[q]);
                assert(run_env.events@.subrange(0, pre_evs.len() as int)[q]
                    == run_env.events@[q]);
            }
            assert(after_init.is_prefix_of(run_env.events@)) by {
                assert(after_init =~= run_env.events@.subrange(0, after_init.len() as int));
            }
            assert(old(run_env).hook_log@.is_prefix_of(run_env.hook_log@)) by {
                assert(old(run_env).hook_log@ =~= run_env.hook_log@.subrange(
                    0,
                    old(run_env).hook_log@.len() as int,
                ));
            }
            let m_new = (pre_evs.len() as int, run_env.events@.len() - 2);
            assert(run_env.events@[m_new.1] == crate::events::ChkEventScope::result_event(
                root_checks@[i as int].instance_id,
                res,
            ));
            assert forall|j: int|
                #![trigger marks[j]]
                0 <= j < marks.len() implies {
                &&& base < marks[j].0 < marks[j].1 < run_env.events@.len()
                &&& run_env.events@[marks[j].0] == ChkLifecycleEvent::CheckStart(
                    root_checks@[j].instance_id,
                )
                &&& (run_env.events@[marks[j].1] == ChkLifecycleEvent::CheckPass(
                    root_checks@[j].instance_id,
                ) || run_env.events@[marks[j].1] == ChkLifecycleEvent::CheckFail(
                    root_checks@[j].instance_id,
                ) || run_env.events@[marks[j].1] == ChkLifecycleEvent::CheckError(
                    root_checks@[j].instance_id,
                ))
            } by {}
            let marks2 = marks.push(m_new);
            assert(forall|j: int|
                #![trigger marks2[j]]
                0 <= j < marks.len() ==> marks2[j] == marks[j]);
            assert(marks2[marks.len() as int] == m_new);
            let gid = root_checks@[i as int].instance_id;
            if prev_result && res.result == Ok::<bool, String>(true) {
                assert forall|j: int|
                    #![trigger marks2[j]]
                    0 <= j < marks2.len() implies run_env.events@[marks2[j].1]
                    == ChkLifecycleEvent::CheckPass(root_checks@[j].instance_id) by {
                    if j < marks.len() {
                        assert(pre_evs[marks[j].1] == ChkLifecycleEvent::CheckPass(
                            root_checks@[j].instance_id,
                        ));
                    } else {
                        assert(run_env.events@[m_new.1]
                            == crate::events::ChkEventScope::result_event(gid, res));
                    }
                }
            } else if !prev_result {
                let j0 = choose|j: int|
                    0 <= j < marks.len() && #[trigger] pre_evs[marks[j].1]
                        != ChkLifecycleEvent::CheckPass(root_checks@[j].instance_id);
                assert(run_env.events@[marks2[j0].1] != ChkLifecycleEvent::CheckPass(
                    root_checks@[j0].instance_id,
                ));
                assert(!(forall|j: int|
                    #![trigger marks2[j]]
                    0 <= j < marks2.len() ==> run_env.events@[marks2[j].1]
                        == ChkLifecycleEvent::CheckPass(root_checks@[j].instance_id)));
            } else {
                assert(run_env.events@[m_new.1]
                    == crate::events::ChkEventScope::result_event(gid, res));
                assert(run_env.events@[marks2[marks.len() as int].1]
                    != ChkLifecycleEvent::CheckPass(gid));
                assert(!(forall|j: int|
                    #![trigger marks2[j]]
                    0 <= j < marks2.len() ==> run_env.events@[marks2[j].1]
                        == ChkLifecycleEvent::CheckPass(root_checks@[j].instance_id)));
            }
            marks = marks2;
        }
        i = i + 1;
    }

    let ghost before_term = run_env.events@;
    let fname2 = crate::compiler::duplicate_filename(&filename);
    run_env.emit(ChkLifecycleEvent::Term(fname2));
    proof {
        let evs = run_env.events@;
        assert(after_init[base] matches ChkLifecycleEvent::Init(_, f) && f == filename);
        assert forall|q: int| 0 <= q < before_term.len() implies evs[q] == before_term[q] by {}
        assert forall|q: int| 0 <= q < after_init.len() implies evs[q] == after_init[q] by {
            assert(before_term.subrange(0, after_init.len() as int)[q] == before_term[q]);
        }
        assert(evs[base] == after_init[base]);
        assert(old(run_env).events@.is_prefix_of(evs)) by {
            assert(old(run_env).events@ =~= evs.subrange(0, base));
        }
        assert(root_marks_ok(base, evs, root_checks@, marks));
        assert(final_result == (forall|j: int|
            #![trigger marks[j]]
            0 <= j < marks.len() ==> evs[marks[j].1] == ChkLifecycleEvent::CheckPass(
                root_checks@[j].instance_id,
            ))) by {
            if forall|j: int|
                #![trigger marks[j]]
                0 <= j < marks.len() ==> before_term[marks[j].1]
                    == ChkLifecycleEvent::CheckPass(root_checks@[j].instance_id) {
                assert forall|j: int|
                    #![trigger marks[j]]
                    0 <= j < marks.len() implies evs[marks[j].1]
                    == ChkLifecycleEvent::CheckPass(root_checks@[j].instance_id) by {}
            } else {
                let j0 = choose|j: int|
                    0 <= j < marks.len() && #[trigger] before_term[marks[j].1]
                        != ChkLifecycleEvent::CheckPass(root_checks@[j].instance_id);
                assert(evs[marks[j0].1] != ChkLifecycleEvent::CheckPass(
                    root_checks@[j0].instance_id,
                ));
            }
        }
    }
    final_result
}

/// A runner for tests and simulations: every probe and command takes its
/// answer from a script, front to back, and the clock ticks once per
/// reading. Sleeps and hook runs are recorded instead of performed.
pub struct ScriptedRunner {
    /// Answers handed to the boolean probes (file, path and port checks).
    pub probe_results: Vec<bool>,
    /// Outcomes handed to shell commands (including rendered tools).
    pub shell_results: Vec<ChkResult>,
    /// Outcomes handed to user-registered leaf checks.
    pub custom_results: Vec<ChkResult>,
    /// Every hook command that would have run.
    pub hook_log: Vec<String>,
    /// Every shell command that would have run (tools hand over their
    /// rendered templates here).
    pub shell_log: Vec<String>,
    /// Every wait that would have happened, in nanoseconds.
    pub sleep_log: Vec<u64>,
    pub clock: u64,
}

impl ScriptedRunner {
    /// A runner whose boolean probes answer from `probe_results`.
    pub fn new(probe_results: Vec<bool>) -> (r: Self)
        ensures
            r.probe_results == probe_results,
            r.shell_results@.len() == 0,
            r.custom_results@.len() == 0,
            r.hook_log@.len() == 0,
            r.shell_log@.len() == 0,
            r.sleep_log@.len() == 0,
            r.clock == 0,
    {
        ScriptedRunner {
            probe_results,
            shell_results: Vec::new(),
            custom_results: Vec::new(),
            hook_log: Vec::new(),
            shell_log: Vec::new(),
            sleep_log: Vec::new(),
            clock: 0,
        }
    }

    /// The next scripted probe answer; an exhausted script answers `false`.
    fn next_probe(&mut self) -> (r: bool)
        ensures
            old(self).probe_results@.len() > 0 ==> (r == old(self).probe_results@[0]
                && final(self).probe_results@ == old(self).probe_results@.drop_first()),
            old(self).probe_results@.len() == 0 ==> (r == false && final(self).probe_results@
                == old(self).probe_results@),
    {
        if self.probe_results.len() > 0 {
            let b = self.probe_results.remove(0);
            proof {
                assert(final(self).probe_results@ =~= old(self).probe_results@.drop_first());
            }
            b
        } else {
            false
        }
    }

    /// The next scripted command outcome; an exhausted script reports an
    /// execution error.
    fn next_result(results: &mut Vec<ChkResult>) -> (r: ChkResult) {
        if results.len() > 0 {
            results.remove(0)
        } else {
            ChkResult {
                result: Err(String::from_str("scripted results exhausted")),
                process_out: None,
                children_results: None,
            }
        }
    }
}

impl CheckRunner for ScriptedRunner {
    fn run_leaf(&mut self, def: &ChkDef, params: &ChkActualParams, inst: &ChkInstance) -> ChkResult {
        Self::next_result(&mut self.custom_results)
    }

    fn fs_exists(&mut self, path: &String) -> bool {
        self.next_probe()
    }

    fn fs_executable(&mut self, path: &String) -> bool {
        self.next_probe()
    }

    fn on_search_path(&mut self, path: &String) -> bool {
        self.next_probe()
    }

    fn run_shell(&mut self, cmd: &String) -> ChkResult {
        self.shell_log.push(cmd.clone());
        Self::next_result(&mut self.shell_results)
    }

    fn port_open(&mut self, port: u16) -> bool {
        self.next_probe()
    }

    fn port_addr_open(&mut self, addr: &String) -> bool {
        self.next_probe()
    }

    fn run_hook(&mut self, hook_name: &str, cmd: &String) {
        self.hook_log.push(cmd.clone());
    }

    fn sleep(&mut self, delay: &ParsedDuration) {
        self.sleep_log.push(delay.duration);
    }

    fn now_nanos(&mut self) -> u64 {
        if self.clock < u64::MAX {
            self.clock = self.clock + 1;
        }
        self.clock
    }
}

} // verus!
