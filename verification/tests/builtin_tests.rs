//! Aggregation and engine behavior, driven by a scripted runner: the
//! scripts stand in for the file system and the shell.
use predikit::builtin::{cd_all, cd_any, cd_none, cd_shell};
use predikit::builtin::cd_file_exists;
use predikit::data::{ChkDef, ChkFnKind, ChkParamType, FParamsBuilder, ParsedDuration};
use predikit::engine::ScriptedRunner;
use predikit::events::ChkLifecycleEvent;
use predikit::instance::{ChkInstanceBuilder, RunEnv};
use predikit::params::{ChkActualParam, ChkActualParams, ContentAddress};
use predikit::strmap::StrMap;

fn single_test_path_param() -> ChkActualParams {
    let mut params: ChkActualParams = StrMap::new();
    params.insert(
        "path".to_string(),
        ChkActualParam::new_string(
            "path".to_string(),
            "a_path_that_exists".to_string(),
            ContentAddress::new(0, 0),
        ),
    );
    params
}

#[test]
fn test_all_pass() {
    let fe = cd_file_exists();
    let all = cd_all();

    let ci = ChkInstanceBuilder::new(&fe)
        .with_params(single_test_path_param())
        .build();

    let mut env = RunEnv::default();
    // Both paths exist.
    let mut runner = ScriptedRunner::new(vec![true, true]);
    let check_result = ChkInstanceBuilder::new(&all)
        .add_child(ci.clone())
        .add_child(ci.clone())
        .build()
        .run_check_maybe_retry(&mut env, &mut runner);

    assert_eq!(true, check_result.result.unwrap());
}

#[test]
fn test_all_fail() {
    let fe = cd_file_exists();
    let all = cd_all();

    let ci = ChkInstanceBuilder::new(&fe)
        .param_string("path", "ThisFileShouldNotExist")
        .build();

    let mut env = RunEnv::default();
    // Neither path exists.
    let mut runner = ScriptedRunner::new(vec![false, false]);
    let check_result = ChkInstanceBuilder::new(&all)
        .add_child(ci.clone())
        .add_child(ci.clone())
        .build()
        .run_check_maybe_retry(&mut env, &mut runner);
    assert_eq!(false, check_result.result.unwrap());
}

#[test]
fn test_none_pass() {
    let fe = cd_file_exists();
    let none = cd_none();

    let ci = ChkInstanceBuilder::new(&fe)
        .param_string("path", "ThisFileShouldNotExist")
        .build();

    let mut env = RunEnv::default();
    let mut runner = ScriptedRunner::new(vec![false, false]);
    let check_result = ChkInstanceBuilder::new(&none)
        .add_child(ci.clone())
        .add_child(ci)
        .build()
        .run_check_maybe_retry(&mut env, &mut runner);
    assert_eq!(true, check_result.result.unwrap());
}

#[test]
fn test_none_fail() {
    let fe = cd_file_exists();
    let none = cd_none();

    let ci = ChkInstanceBuilder::new(&fe)
        .with_params(single_test_path_param())
        .build();

    let mut env = RunEnv::default();
    let mut runner = ScriptedRunner::new(vec![true, true]);
    let check_result = ChkInstanceBuilder::new(&none)
        .add_child(ci.clone())
        .add_child(ci)
        .build()
        .run_check_maybe_retry(&mut env, &mut runner);

    assert_eq!(false, check_result.result.unwrap());
}

#[test]
fn test_any_pass() {
    let fe = cd_file_exists();
    let any = cd_any();

    let ci1 = ChkInstanceBuilder::new(&fe)
        .param_string("path", "ThisFileShouldNotExist")
        .build();

    let ci2 = ChkInstanceBuilder::new(&fe)
        .with_params(single_test_path_param())
        .build();

    let mut env = RunEnv::default();
    let mut runner = ScriptedRunner::new(vec![false, true]);
    let check_result = ChkInstanceBuilder::new(&any)
        .add_child(ci1.clone())
        .add_child(ci2)
        .build()
        .run_check_maybe_retry(&mut env, &mut runner);

    assert_eq!(true, check_result.result.unwrap());
}

#[test]
fn test_any_fail() {
    let fe = cd_file_exists();
    let any = cd_any();

    let ci = ChkInstanceBuilder::new(&fe)
        .param_string("path", "ThisFileShouldNotExist")
        .build();

    let mut env = RunEnv::default();
    let mut runner = ScriptedRunner::new(vec![false, false]);
    let check_result = ChkInstanceBuilder::new(&any)
        .add_child(ci.clone())
        .add_child(ci)
        .build()
        .run_check_maybe_retry(&mut env, &mut runner);

    assert_eq!(false, check_result.result.unwrap());
}

// A group with no children is an execution error, whatever its kind.
#[test]
fn empty_group_is_an_error() {
    for def in [cd_all(), cd_any(), cd_none()] {
        let mut env = RunEnv::default();
        let mut runner = ScriptedRunner::new(vec![]);
        let r = ChkInstanceBuilder::new(&def)
            .build()
            .run_check_maybe_retry(&mut env, &mut runner);
        assert_eq!(r.result, Err("pred.all has no children".to_string()));
    }
}

// Negation inverts a boolean verdict.
#[test]
fn negation_inverts_boolean() {
    let fe = cd_file_exists();
    let mut env = RunEnv::default();
    let mut runner = ScriptedRunner::new(vec![true]);
    let r = ChkInstanceBuilder::new(&fe)
        .with_params(single_test_path_param())
        .negated(true)
        .build()
        .run_check_maybe_retry(&mut env, &mut runner);
    assert_eq!(r.result, Ok(false));
}

// Negation leaves an error outcome's error untouched.
#[test]
fn negation_keeps_error() {
    let shell = cd_shell();
    let mut env = RunEnv::default();
    let mut runner = ScriptedRunner::new(vec![]);
    runner.shell_results.push(predikit::instance::ChkResult {
        result: Err("command could not launch".to_string()),
        process_out: None,
        children_results: None,
    });
    let r = ChkInstanceBuilder::new(&shell)
        .param_string("cmd", "definitely-not-a-command")
        .negated(true)
        .build()
        .run_check_maybe_retry(&mut env, &mut runner);
    assert_eq!(r.result, Err("command could not launch".to_string()));
}

// With three attempts scripted fail, fail, pass, exactly two
// sleep/retry event pairs come before the final pass.
#[test]
fn retry_emits_two_sleep_retry_pairs() {
    let fe = cd_file_exists();
    let mut env = RunEnv::default();
    let mut runner = ScriptedRunner::new(vec![false, false, true]);
    let mut params = single_test_path_param();
    params.insert(
        "retries".to_string(),
        ChkActualParam::new_int("retries".to_string(), 3, ContentAddress::new(0, 0)),
    );
    params.insert(
        "retry_delay".to_string(),
        ChkActualParam::new_duration(
            "retry_delay".to_string(),
            ParsedDuration::new(1_000_000, "1ms".to_string()),
            ContentAddress::new(0, 0),
        ),
    );
    let r = ChkInstanceBuilder::new(&fe)
        .with_params(params)
        .retrying()
        .build()
        .run_check_maybe_retry(&mut env, &mut runner);
    assert_eq!(r.result, Ok(true));

    let mut sleeps = 0;
    let mut retries = 0;
    let mut passes = 0;
    let mut pass_after_last_retry = false;
    for ev in &env.events {
        match ev {
            ChkLifecycleEvent::CheckRetrySleep(_, _) => sleeps += 1,
            ChkLifecycleEvent::CheckRetry(_, n) => {
                retries += 1;
                assert!(*n == 1 || *n == 2);
            },
            ChkLifecycleEvent::CheckPass(_) => {
                passes += 1;
                pass_after_last_retry = retries == 2;
            },
            _ => {},
        }
    }
    assert_eq!(sleeps, 2);
    assert_eq!(retries, 2);
    assert_eq!(passes, 1);
    assert!(pass_after_last_retry);
    // The two waits really went through the runner.
    assert_eq!(runner.sleep_log, vec![1_000_000, 1_000_000]);
}

// A tool's command template renders over the actual parameter values before
// it reaches the shell.
#[test]
fn tool_template_renders_before_the_shell() {
    let mut template_params: ChkActualParams = StrMap::new();
    template_params.insert(
        "cmd_template".to_string(),
        ChkActualParam::new_string(
            "cmd_template".to_string(),
            "echo {{msg}}".to_string(),
            ContentAddress::new(0, 0),
        ),
    );
    let tool = ChkDef {
        name: "echoes?".to_string(),
        check_fn: ChkFnKind::ToolTemplate,
        formal_params: FParamsBuilder::new()
            .add_param("msg", ChkParamType::PkString)
            .required()
            .finish_param()
            .build(),
        accepts_children: false,
        is_group: false,
        template_params: Some(template_params),
        is_query: false,
    };
    let mut env = RunEnv::default();
    let mut runner = ScriptedRunner::new(vec![]);
    runner.shell_results.push(predikit::instance::ChkResult {
        result: Ok(true),
        process_out: None,
        children_results: None,
    });
    let r = ChkInstanceBuilder::new(&tool)
        .param_string("msg", "hello")
        .build()
        .run_check_maybe_retry(&mut env, &mut runner);
    assert_eq!(r.result, Ok(true));
    assert_eq!(runner.shell_log, vec!["echo hello".to_string()]);
}

// A file run is bracketed: `Init` with every instance's description comes
// before any instance event, `Term` after them all, and each instance's
// `CheckStart` precedes its single outcome event, closed by `CheckFinish`.
#[test]
fn file_run_is_bracketed_by_init_and_term() {
    let fe = cd_file_exists();
    let child = ChkInstanceBuilder::new(&fe)
        .param_string("path", "somewhere")
        .instance_id(1000)
        .build();
    let roots = vec![child];
    let mut env = RunEnv::default();
    let mut runner = ScriptedRunner::new(vec![true]);
    let ok = predikit::engine::run_checks(
        &roots,
        Some("demo.pk".to_string()),
        &mut env,
        &mut runner,
    );
    assert!(ok);
    assert_eq!(env.events.len(), 5);
    assert!(matches!(&env.events[0], ChkLifecycleEvent::Init(m, Some(f)) if f == "demo.pk" && m.len() == 1));
    assert!(matches!(env.events[1], ChkLifecycleEvent::CheckStart(1000)));
    assert!(matches!(env.events[2], ChkLifecycleEvent::CheckPass(1000)));
    assert!(matches!(env.events[3], ChkLifecycleEvent::CheckFinish(1000, _)));
    assert!(matches!(&env.events[4], ChkLifecycleEvent::Term(Some(f)) if f == "demo.pk"));
}

// Hooks run on the outcome they belong to, and their commands reach the
// runner.
#[test]
fn hooks_reach_the_runner() {
    let fe = cd_file_exists();
    let mut env = RunEnv::default();
    let mut runner = ScriptedRunner::new(vec![true]);
    let r = ChkInstanceBuilder::new(&fe)
        .with_params(single_test_path_param())
        .param_string("on_init", "echo starting")
        .param_string("on_pass", "echo passed")
        .param_string("on_term", "echo done")
        .build()
        .run_check_maybe_retry(&mut env, &mut runner);
    assert_eq!(r.result, Ok(true));
    assert_eq!(
        runner.hook_log,
        vec!["echo starting".to_string(), "echo passed".to_string(), "echo done".to_string()]
    );
}
