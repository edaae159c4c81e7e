//! The built-in function definitions: the leaf checks seeded into a fresh
//! registry and the three group (aggregation) functions.
use vstd::prelude::*;

use crate::data::{AggType, ChkDef, ChkFnKind, ChkParamType, FParamsBuilder};
use crate::engine::{tree_runnable, CheckRunner};
use crate::instance::{ChkInstance, ChkResult, RunEnv};
use crate::params::ChkActualParams;

verus! {

/// The boolean a group combinator computes over its children's outcomes
/// when every child ran to a boolean: `all` is their conjunction, `any`
/// their disjunction, `none` the conjunction of their negations.
pub open spec fn agg_combine(agg: AggType, crs: Seq<ChkResult>) -> bool {
    match agg {
        AggType::All => forall|i: int| 0 <= i < crs.len() ==> (#[trigger] crs[i]).result == Ok::<
            bool,
            String,
        >(true),
        AggType::Any => exists|i: int| 0 <= i < crs.len() && (#[trigger] crs[i]).result == Ok::<
            bool,
            String,
        >(true),
        AggType::NoneOf => forall|i: int| 0 <= i < crs.len() ==> (#[trigger] crs[i]).result == Ok::<
            bool,
            String,
        >(false),
    }
}

/// `all`: every child's verdict was true.
pub fn agg_all(f: &Vec<ChkResult>) -> (r: bool)
    requires
        forall|i: int| 0 <= i < f@.len() ==> (#[trigger] f@[i]).result is Ok,
    ensures
        r == agg_combine(AggType::All, f@),
{
    let n = f.len();
    let mut i: usize = 0;
    while i < n
        invariant
            i <= n,
            n == f@.len(),
            forall|j: int| 0 <= j < f@.len() ==> (#[trigger] f@[j]).result is Ok,
            forall|j: int| 0 <= j < i ==> (#[trigger] f@[j]).result == Ok::<bool, String>(true),
        decreases n - i,
    {
        let ok = match f[i].result.as_ref() {
            Ok(b) => *b,
            Err(_) => vstd::pervasive::unreached(),
        };
        if !ok {
            return false;
        }
        i = i + 1;
    }
    true
}

/// `any`: some child's verdict was true.
pub fn agg_any(f: &Vec<ChkResult>) -> (r: bool)
    requires
        forall|i: int| 0 <= i < f@.len() ==> (#[trigger] f@[i]).result is Ok,
    ensures
        r == agg_combine(AggType::Any, f@),
{
    let n = f.len();
    let mut i: usize = 0;
    while i < n
        invariant
            i <= n,
            n == f@.len(),
            forall|j: int| 0 <= j < f@.len() ==> (#[trigger] f@[j]).result is Ok,
            forall|j: int| 0 <= j < i ==> (#[trigger] f@[j]).result != Ok::<bool, String>(true),
        decreases n - i,
    {
        let ok = match f[i].result.as_ref() {
            Ok(b) => *b,
            Err(_) => vstd::pervasive::unreached(),
        };
        if ok {
            return true;
        }
        i = i + 1;
    }
    false
}

/// `none`: every child's verdict was false.
pub fn agg_none(f: &Vec<ChkResult>) -> (r: bool)
    requires
        forall|i: int| 0 <= i < f@.len() ==> (#[trigger] f@[i]).result is Ok,
    ensures
        r == agg_combine(AggType::NoneOf, f@),
{
    let n = f.len();
    let mut i: usize = 0;
    while i < n
        invariant
            i <= n,
            n == f@.len(),
            forall|j: int| 0 <= j < f@.len() ==> (#[trigger] f@[j]).result is Ok,
            forall|j: int| 0 <= j < i ==> (#[trigger] f@[j]).result == Ok::<bool, String>(false),
        decreases n - i,
    {
        let ok = match f[i].result.as_ref() {
            Ok(b) => *b,
            Err(_) => vstd::pervasive::unreached(),
        };
        if ok {
            return false;
        }
        i = i + 1;
    }
    true
}

/// How a group's verdict relates to its children's outcomes: the first
/// child that could not run decides the group's error; otherwise the
/// combinator of the kind decides the boolean.
pub open spec fn agg_result_ok(agg: AggType, crs: Seq<ChkResult>, res: Result<bool, String>) -> bool {
    if exists|i: int| 0 <= i < crs.len() && (#[trigger] crs[i]).result is Err {
        exists|i: int|
            {
                &&& 0 <= i < crs.len()
                &&& (#[trigger] crs[i]).result is Err
                &&& (forall|j: int| 0 <= j < i ==> (#[trigger] crs[j]).result is Ok)
                &&& res == crs[i].result
            }
    } else {
        res == Ok::<bool, String>(agg_combine(agg, crs))
    }
}

/// Evaluates a group: runs every child in declaration order through the
/// same retry and negation machinery, then combines. A group with no
/// children is an execution error, whatever its kind; a child that could
/// not run makes the group's outcome that child's error rather than a
/// boolean.
pub fn agg_exec<'a, R: CheckRunner>(
    agg_type: AggType,
    run_env: &mut RunEnv,
    params: &ChkActualParams,
    this: &ChkInstance<'a>,
    runner: &mut R,
) -> (r: ChkResult)
    requires
        tree_runnable(*this),
    ensures
        old(run_env).events@.is_prefix_of(final(run_env).events@),
        final(run_env).global_config == old(run_env).global_config,
        old(run_env).hook_log@.is_prefix_of(final(run_env).hook_log@),
        this.children@.len() == 0 ==> {
            &&& r.result matches Err(m) && m@ == "pred.all has no children"@
            &&& r.process_out is None
            &&& r.children_results is None
            &&& final(run_env).events@ == old(run_env).events@
        },
        this.children@.len() > 0 ==> {
            &&& r.children_results matches Some(crs) && crs@.len() == this.children@.len()
                && agg_result_ok(agg_type, crs@, r.result) && (exists|marks: Seq<(int, int)>|
                crate::engine::child_marks_ok(
                    old(run_env).events@.len() as int,
                    final(run_env).events@,
                    this.children@,
                    crs@,
                    marks,
                ))
            &&& r.process_out is None
        },
    decreases *this, 0int,
{
    let mut child_results: Vec<ChkResult> = Vec::new();
    let ghost pre_len = run_env.events@.len() as int;
    let ghost mut marks: Seq<(int, int)> = Seq::empty();
    let n = this.children.len();
    let mut i: usize = 0;
    while i < n
        invariant
            i <= n,
            n == this.children@.len(),
            tree_runnable(*this),
            child_results@.len() == i,
            marks.len() == i,
            pre_len == old(run_env).events@.len(),
            old(run_env).events@.is_prefix_of(run_env.events@),
            i == 0 ==> run_env.events@ == old(run_env).events@,
            run_env.global_config == old(run_env).global_config,
            old(run_env).hook_log@.is_prefix_of(run_env.hook_log@),
            forall|j: int|
                #![trigger marks[j]]
                0 <= j < marks.len() ==> {
                    &&& pre_len <= marks[j].0 < marks[j].1 < run_env.events@.len()
                    &&& run_env.events@[marks[j].0] == crate::events::ChkLifecycleEvent::CheckStart(
                        this.children@[j].instance_id,
                    )
                    &&& run_env.events@[marks[j].1]
                        == crate::events::ChkEventScope::result_event(
                        this.children@[j].instance_id,
                        child_results@[j],
                    )
                },
            forall|j: int|
                #![trigger marks[j]]
                0 <= j < marks.len() - 1 ==> marks[j].1 < marks[j + 1].0,
        decreases n - i,
    {
        let ghost ii = i as int;
        proof {
            assert(decreases_to!(*this => this.children));
            assert(decreases_to!(this.children => this.children[ii]));
            assert(tree_runnable(this.children@[ii]));
        }
        let ghost pre_events = run_env.events@;
        let ghost pre_hooks = run_env.hook_log@;
        let child_result = this.children[i].run_check_maybe_retry(run_env, runner);
        proof {
            crate::events::lemma_log_extension(pre_events, run_env.events@);
            assert forall|j: int|
                #![trigger marks[j]]
                0 <= j < marks.len() implies {
                &&& pre_len <= marks[j].0 < marks[j].1 < run_env.events@.len()
                &&& run_env.events@[marks[j].0] == crate::events::ChkLifecycleEvent::CheckStart(
                    this.children@[j].instance_id,
                )
                &&& run_env.events@[marks[j].1] == crate::events::ChkEventScope::result_event(
                    this.children@[j].instance_id,
                    child_results@[j],
                )
            } by {}
            marks = marks.push(
                (pre_events.len() as int, run_env.events@.len() - 2),
            );
            assert(old(run_env).hook_log@.is_prefix_of(run_env.hook_log@)) by {
                assert(old(run_env).hook_log@ =~= run_env.hook_log@.subrange(
                    0,
                    old(run_env).hook_log@.len() as int,
                ));
            }
        }
        child_results.push(child_result);
        i = i + 1;
    }
    proof {
        assert(old(run_env).events@.is_prefix_of(run_env.events@));
    }

    if this.children.len() == 0 {
        return ChkResult {
            result: Err(String::from_str("pred.all has no children")),
            process_out: None,
            children_results: None,
        };
    }

    // A child that could not run: its error becomes the group's outcome.
    let m = child_results.len();
    let mut k: usize = 0;
    while k < m
        invariant
            k <= m,
            m == child_results@.len(),
            m == this.children@.len(),
            m > 0,
            pre_len == old(run_env).events@.len(),
            old(run_env).events@.is_prefix_of(run_env.events@),
            run_env.global_config == old(run_env).global_config,
            old(run_env).hook_log@.is_prefix_of(run_env.hook_log@),
            crate::engine::child_marks_ok(
                pre_len,
                run_env.events@,
                this.children@,
                child_results@,
                marks,
            ),
            forall|j: int| 0 <= j < k ==> (#[trigger] child_results@[j]).result is Ok,
        decreases m - k,
    {
        if child_results[k].is_check_error() {
            let msg = match child_results[k].result.as_ref() {
                Err(e) => e.clone(),
                Ok(_) => vstd::pervasive::unreached(),
            };
            proof {
                assert(child_results@[k as int].result is Err);
                assert(Err::<bool, String>(msg) == child_results@[k as int].result);
                assert(old(run_env).hook_log@.is_prefix_of(run_env.hook_log@));
                assert(crate::engine::child_marks_ok(
                    pre_len,
                    run_env.events@,
                    this.children@,
                    child_results@,
                    marks,
                ));
                assert(agg_result_ok(
                    agg_type,
                    child_results@,
                    Err::<bool, String>(msg),
                ));
                assert(exists|ms: Seq<(int, int)>|
                    crate::engine::child_marks_ok(
                        old(run_env).events@.len() as int,
                        run_env.events@,
                        this.children@,
                        child_results@,
                        ms,
                    )) by {
                    assert(crate::engine::child_marks_ok(
                        old(run_env).events@.len() as int,
                        run_env.events@,
                        this.children@,
                        child_results@,
                        marks,
                    ));
                }
            }
            return ChkResult {
                result: Err(msg),
                process_out: None,
                children_results: Some(child_results),
            };
        }
        k = k + 1;
    }

    let agg = match agg_type {
        AggType::All => agg_all(&child_results),
        AggType::Any => agg_any(&child_results),
        AggType::NoneOf => agg_none(&child_results),
    };
    proof {
        assert(exists|ms: Seq<(int, int)>|
            crate::engine::child_marks_ok(
                old(run_env).events@.len() as int,
                run_env.events@,
                this.children@,
                child_results@,
                ms,
            )) by {
            assert(crate::engine::child_marks_ok(
                old(run_env).events@.len() as int,
                run_env.events@,
                this.children@,
                child_results@,
                marks,
            ));
        }
        assert(forall|j: int| 0 <= j < child_results@.len() ==> (#[trigger] child_results@[j]).result is Ok);
        assert(!(exists|j: int| 0 <= j < child_results@.len() && (#[trigger] child_results@[j]).result is Err));
        assert(agg_result_ok(agg_type, child_results@, Ok::<bool, String>(agg)));
    }
    ChkResult { result: Ok(agg), process_out: None, children_results: Some(child_results) }
}

/// The built-in leaf checks a fresh registry starts with.
pub fn define_builtins() -> (r: Vec<ChkDef>)
    ensures
        r@.len() == 1,
        r@[0].name@ == "exists?"@,
        r@[0].check_fn == ChkFnKind::FileExists,
        !r@[0].is_group,
        r@[0].formal_params.wf(),
        r@[0].formal_params.as_map().dom() == set!["path"@],
        r@[0].formal_params.as_map()["path"@].required,
        r@[0].formal_params.as_map()["path"@].param_type == ChkParamType::PkPath,
{
    let mut v: Vec<ChkDef> = Vec::new();
    v.push(cd_file_exists());
    v
}

/// The three built-in group functions, in registration order.
pub fn define_aggs() -> (r: Vec<ChkDef>)
    ensures
        r@.len() == 3,
        forall|i: int|
            0 <= i < 3 ==> (#[trigger] r@[i]).is_group && r@[i].accepts_children
                && r@[i].formal_params@.len() == 0,
        r@[0].name@ == "all"@ && r@[0].check_fn == ChkFnKind::Agg(AggType::All),
        r@[1].name@ == "any"@ && r@[1].check_fn == ChkFnKind::Agg(AggType::Any),
        r@[2].name@ == "none"@ && r@[2].check_fn == ChkFnKind::Agg(AggType::NoneOf),
{
    let mut v: Vec<ChkDef> = Vec::new();
    v.push(cd_all());
    v.push(cd_any());
    v.push(cd_none());
    v
}

/// A group definition: no declared parameters, accepts children.
fn cd_agg(name: &str, agg: AggType) -> (r: ChkDef)
    ensures
        r.name@ == name@,
        r.check_fn == ChkFnKind::Agg(agg),
        r.formal_params@.len() == 0,
        r.formal_params.wf(),
        r.is_group,
        r.accepts_children,
        r.template_params is None,
        !r.is_query,
{
    ChkDef {
        name: String::from_str(name),
        check_fn: ChkFnKind::Agg(agg),
        formal_params: FParamsBuilder::empty(),
        accepts_children: true,
        is_group: true,
        template_params: None,
        is_query: false,
    }
}

/// `all`: the logical AND of the children's outcomes.
pub fn cd_all() -> (r: ChkDef)
    ensures
        r.name@ == "all"@,
        r.check_fn == ChkFnKind::Agg(AggType::All),
        r.formal_params@.len() == 0,
        r.formal_params.wf(),
        r.is_group,
        r.accepts_children,
{
    cd_agg("all", AggType::All)
}

/// `any`: the logical OR of the children's outcomes.
pub fn cd_any() -> (r: ChkDef)
    ensures
        r.name@ == "any"@,
        r.check_fn == ChkFnKind::Agg(AggType::Any),
        r.formal_params@.len() == 0,
        r.formal_params.wf(),
        r.is_group,
        r.accepts_children,
{
    cd_agg("any", AggType::Any)
}

/// `none`: the logical AND of the children's negated outcomes.
pub fn cd_none() -> (r: ChkDef)
    ensures
        r.name@ == "none"@,
        r.check_fn == ChkFnKind::Agg(AggType::NoneOf),
        r.formal_params@.len() == 0,
        r.formal_params.wf(),
        r.is_group,
        r.accepts_children,
{
    cd_agg("none", AggType::NoneOf)
}

/// A leaf definition with a single required parameter.
fn cd_leaf_one_param(name: &str, kind: ChkFnKind, param: &str, ty: ChkParamType) -> (r: ChkDef)
    ensures
        r.name@ == name@,
        r.check_fn == kind,
        r.formal_params.wf(),
        r.formal_params.as_map().dom() =~= set![param@],
        r.formal_params.as_map()[param@].name@ == param@,
        r.formal_params.as_map()[param@].required,
        r.formal_params.as_map()[param@].param_type == ty,
        r.formal_params.as_map()[param@].param_default is None,
        !r.is_group,
        !r.accepts_children,
        r.template_params is None,
        !r.is_query,
{
    let formal_params = FParamsBuilder::new().add_param(param, ty).required().finish_param().build();
    proof {
        assert(formal_params.as_map() =~= Map::empty().insert(
            param@,
            formal_params.as_map()[param@],
        ));
        assert(formal_params.as_map().dom() =~= set![param@]);
    }
    ChkDef {
        name: String::from_str(name),
        check_fn: kind,
        formal_params,
        accepts_children: false,
        is_group: false,
        template_params: None,
        is_query: false,
    }
}

/// `exists?`: does a file system entry exist at `path`.
pub fn cd_file_exists() -> (r: ChkDef)
    ensures
        r.name@ == "exists?"@,
        r.check_fn == ChkFnKind::FileExists,
        r.formal_params.wf(),
        r.formal_params.as_map().dom() =~= set!["path"@],
        r.formal_params.as_map()["path"@].required,
        r.formal_params.as_map()["path"@].param_type == ChkParamType::PkPath,
        !r.is_group,
{
    cd_leaf_one_param("exists?", ChkFnKind::FileExists, "path", ChkParamType::PkPath)
}

/// `executable?`: is the file at `path` executable.
pub fn cd_file_is_executable() -> (r: ChkDef)
    ensures
        r.name@ == "executable?"@,
        r.check_fn == ChkFnKind::FileExecutable,
        r.formal_params.wf(),
        r.formal_params.as_map().dom() =~= set!["path"@],
        r.formal_params.as_map()["path"@].required,
        r.formal_params.as_map()["path"@].param_type == ChkParamType::PkPath,
        !r.is_group,
{
    cd_leaf_one_param("executable?", ChkFnKind::FileExecutable, "path", ChkParamType::PkPath)
}

/// `on_path?`: does `path` name an executable on the search path.
pub fn cd_file_is_on_path() -> (r: ChkDef)
    ensures
        r.name@ == "on_path?"@,
        r.check_fn == ChkFnKind::FileOnPath,
        r.formal_params.wf(),
        r.formal_params.as_map().dom() =~= set!["path"@],
        r.formal_params.as_map()["path"@].required,
        r.formal_params.as_map()["path"@].param_type == ChkParamType::PkPath,
        !r.is_group,
{
    cd_leaf_one_param("on_path?", ChkFnKind::FileOnPath, "path", ChkParamType::PkPath)
}

/// `shell`: run `cmd` through a shell; passes when the exit status does.
pub fn cd_shell() -> (r: ChkDef)
    ensures
        r.name@ == "shell"@,
        r.check_fn == ChkFnKind::ShellCmd,
        r.formal_params.wf(),
        r.formal_params.as_map().dom() =~= set!["cmd"@],
        r.formal_params.as_map()["cmd"@].required,
        r.formal_params.as_map()["cmd"@].param_type == ChkParamType::PkString,
        !r.is_group,
{
    cd_leaf_one_param("shell", ChkFnKind::ShellCmd, "cmd", ChkParamType::PkString)
}

/// `port_open?`: is the local `port` open.
pub fn cd_port_open() -> (r: ChkDef)
    ensures
        r.name@ == "port_open?"@,
        r.check_fn == ChkFnKind::PortOpen,
        r.formal_params.wf(),
        r.formal_params.as_map().dom() =~= set!["port"@],
        r.formal_params.as_map()["port"@].required,
        r.formal_params.as_map()["port"@].param_type == ChkParamType::PkInt,
        !r.is_group,
{
    cd_leaf_one_param("port_open?", ChkFnKind::PortOpen, "port", ChkParamType::PkInt)
}

/// `port_addr_open?`: is `addr_port` ("host:port") reachable.
pub fn cd_port_addr_open() -> (r: ChkDef)
    ensures
        r.name@ == "port_addr_open?"@,
        r.check_fn == ChkFnKind::PortAddrOpen,
        r.formal_params.wf(),
        r.formal_params.as_map().dom() =~= set!["addr_port"@],
        r.formal_params.as_map()["addr_port"@].required,
        r.formal_params.as_map()["addr_port"@].param_type == ChkParamType::PkString,
        !r.is_group,
{
    cd_leaf_one_param("port_addr_open?", ChkFnKind::PortAddrOpen, "addr_port", ChkParamType::PkString)
}

} // verus!
