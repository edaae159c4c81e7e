//! The semantic compiler: name resolution, id assignment and parameter
//! type-checking over raw trees.
use predikit::ast::{AstActualParams, AstCheckDef, AstFileChecks, AstFileTools, AstToolDef, AstToolDefParams, AstToolInstanceParams};
use predikit::compiler::{compile_checks_to_asts, make_check_instance, make_tools, CompiledCheckFileOut, CompilerErrorType};
use predikit::data::{ChkDef, ChkDefRegistry, ChkFnKind, ChkParamType, FParamsBuilder};
use predikit::params::{ChkActualParam, ContentAddress};
use predikit::params::NamedType;
use predikit::strmap::StrMap;

fn get_test_only_check_fn() -> ChkDef {
    ChkDef {
        name: "for_testing_only!".to_string(),
        is_group: false,
        accepts_children: false,
        template_params: None,
        is_query: false,
        formal_params: FParamsBuilder::new()
            .add_param("str_param", ChkParamType::PkString)
            .required()
            .finish_param()
            .add_param("int_param", ChkParamType::PkInt)
            .required()
            .finish_param()
            .add_param("bool_param", ChkParamType::PkBool)
            .required()
            .finish_param()
            .add_param("not_required_string", ChkParamType::PkString)
            .not_required()
            .finish_param()
            .build(),
        check_fn: ChkFnKind::Custom,
    }
}

fn get_test_only_check_fn_with_paths() -> ChkDef {
    ChkDef {
        name: "for_testing_paths_only!".to_string(),
        is_group: false,
        accepts_children: false,
        template_params: None,
        is_query: false,
        formal_params: FParamsBuilder::new()
            .add_param("str_param1", ChkParamType::PkString)
            .required()
            .finish_param()
            .add_param("str_param2", ChkParamType::PkString)
            .required()
            .finish_param()
            .add_param("path_param1", ChkParamType::PkPath)
            .required()
            .finish_param()
            .add_param("path_param2", ChkParamType::PkPath)
            .required()
            .finish_param()
            .build(),
        check_fn: ChkFnKind::Custom,
    }
}

fn ca(start: usize, end: usize) -> ContentAddress {
    ContentAddress::new(start, end)
}

#[test]
fn test_make_check_instance_simple() {
    let mut ccfo = CompiledCheckFileOut::new(Some("./foo.pk".to_string()));
    let fns = ChkDefRegistry::new_with_builtins();

    let mut actual_params: AstActualParams = StrMap::new();
    let path = ChkActualParam::new_string("path".to_string(), "./foo.pk".to_string(), ca(0, 0));
    actual_params.insert("path".to_string(), path);

    let ast_check_def = AstCheckDef {
        fn_name: "exists?".to_string(),
        is_negated: false,
        is_retrying: false,
        actual_params,
        children: vec![],
        content_address: ca(0, 0),
        is_group: false,
    };

    let result = make_check_instance(&mut ccfo, &fns, ast_check_def);
    assert!(result.is_some());
    assert_eq!(ccfo.errors.len(), 0);
}

#[test]
fn test_make_check_instance_invalid_function() {
    let mut ccfo = CompiledCheckFileOut::new(Some("foo.pk".to_string()));
    let fns = ChkDefRegistry::new_with_builtins();

    let mut actual_params: AstActualParams = StrMap::new();
    let path = ChkActualParam::new_string("path".to_string(), "foo.pk".to_string(), ca(0, 0));
    actual_params.insert("path".to_string(), path);

    let ast_check_def = AstCheckDef {
        fn_name: "foo?".to_string(),
        is_negated: false,
        is_retrying: false,
        actual_params,
        children: vec![],
        content_address: ca(0, 0),
        is_group: false,
    };

    let result = make_check_instance(&mut ccfo, &fns, ast_check_def);
    assert!(result.is_none());
    assert_eq!(ccfo.errors.len(), 1);

    let compiler_err = ccfo.errors.first().unwrap();
    assert_eq!(compiler_err.filename, Some("foo.pk".to_string()));
    assert_eq!(compiler_err.error_type, CompilerErrorType::Error);
    assert_eq!(compiler_err.content_address, ca(0, 0));

    assert_eq!(
        ccfo.errors.first().unwrap().message,
        "Unknown function foo?".to_string()
    )
}

#[test]
fn test_make_check_instance_with_children() {
    let mut ccfo = CompiledCheckFileOut::new(Some("foo.pk".to_string()));
    let fns = ChkDefRegistry::new_with_builtins();

    let mut chk_actual_params: AstActualParams = StrMap::new();
    let path = ChkActualParam::new_string("path".to_string(), "foo.pk".to_string(), ca(0, 0));
    chk_actual_params.insert("path".to_string(), path);

    let ast_check_def = AstCheckDef {
        fn_name: "exists?".to_string(),
        is_negated: false,
        is_retrying: false,
        actual_params: chk_actual_params,
        children: vec![],
        content_address: ca(0, 0),
        is_group: false,
    };

    let mut group_actual_params: AstActualParams = StrMap::new();
    let path = ChkActualParam::new_string("title".to_string(), "Test title".to_string(), ca(0, 0));
    group_actual_params.insert("title".to_string(), path);

    let all_check_def = AstCheckDef {
        fn_name: "all".to_string(),
        is_negated: false,
        is_retrying: false,
        actual_params: group_actual_params,
        children: vec![ast_check_def],
        content_address: ca(0, 0),
        is_group: true,
    };

    let result = make_check_instance(&mut ccfo, &fns, all_check_def);
    assert!(result.is_some());
    assert_eq!(ccfo.errors.len(), 0);
    let inst = result.unwrap();
    assert_eq!("all".to_string(), inst.fn_def.name);
    let child = inst.children.first().unwrap();
    assert_eq!("exists?".to_string(), child.fn_def.name);
}

#[test]
fn test_typecheck_check_params() {
    // simple case, should typecheck successfully
    let mut ccfo = CompiledCheckFileOut::new(Some("foo.pk".to_string()));
    let mut fns = ChkDefRegistry::new_with_builtins();
    fns.register_fn("for_testing_only!".to_string(), get_test_only_check_fn());

    let mut actual_params: AstActualParams = StrMap::new();
    actual_params.insert(
        "str_param".to_string(),
        ChkActualParam::new_string("str_param".to_string(), "foo.pk".to_string(), ca(0, 5)),
    );
    actual_params.insert(
        "int_param".to_string(),
        ChkActualParam::new_int("int_param".to_string(), 99, ca(25, 30)),
    );
    actual_params.insert(
        "bool_param".to_string(),
        ChkActualParam::new_bool("bool_param".to_string(), false, ca(50, 55)),
    );

    let ast_check_def = AstCheckDef {
        fn_name: "for_testing_only!".to_string(),
        is_negated: false,
        is_retrying: false,
        actual_params,
        children: vec![],
        content_address: ca(0, 0),
        is_group: false,
    };

    let inst = make_check_instance(&mut ccfo, &fns, ast_check_def).unwrap();
    predikit::compiler::typecheck_check_params(&mut ccfo, &inst);
    assert!(ccfo.errors.is_empty());
}

#[test]
fn test_typecheck_check_missing_required_params() {
    let mut ccfo = CompiledCheckFileOut::new(Some("foo.pk".to_string()));
    let mut fns = ChkDefRegistry::new_with_builtins();
    fns.register_fn("for_testing_only!".to_string(), get_test_only_check_fn());

    let mut actual_params: AstActualParams = StrMap::new();
    actual_params.insert(
        "str_param".to_string(),
        ChkActualParam::new_string("str_param".to_string(), "foo.pk".to_string(), ca(0, 5)),
    );

    let ast_check_def = AstCheckDef {
        fn_name: "for_testing_only!".to_string(),
        is_negated: false,
        is_retrying: false,
        actual_params,
        children: vec![],
        content_address: ca(0, 0),
        is_group: false,
    };

    let inst = make_check_instance(&mut ccfo, &fns, ast_check_def).unwrap();
    predikit::compiler::typecheck_check_params(&mut ccfo, &inst);
    assert_eq!(2, ccfo.errors.len());

    let bool_param_err = ccfo.errors.first().unwrap();
    assert_eq!(
        bool_param_err.message,
        "Required parameter is missing for check for_testing_only!: bool_param".to_string()
    );

    let int_param_err = ccfo.errors.get(1).unwrap();
    assert_eq!(
        int_param_err.message,
        "Required parameter is missing for check for_testing_only!: int_param".to_string()
    );
}

#[test]
fn test_typecheck_check_extra_params() {
    let mut ccfo = CompiledCheckFileOut::new(Some("foo.pk".to_string()));
    let mut fns = ChkDefRegistry::new_with_builtins();
    fns.register_fn("for_testing_only!".to_string(), get_test_only_check_fn());

    let mut actual_params: AstActualParams = StrMap::new();
    actual_params.insert(
        "str_param".to_string(),
        ChkActualParam::new_string("str_param".to_string(), "foo.pk".to_string(), ca(0, 5)),
    );
    actual_params.insert(
        "int_param".to_string(),
        ChkActualParam::new_int("int_param".to_string(), 99, ca(25, 30)),
    );
    actual_params.insert(
        "bool_param".to_string(),
        ChkActualParam::new_bool("bool_param".to_string(), false, ca(50, 55)),
    );
    actual_params.insert(
        "extra_param".to_string(),
        ChkActualParam::new_bool("extra_param".to_string(), false, ca(75, 80)),
    );

    let ast_check_def = AstCheckDef {
        fn_name: "for_testing_only!".to_string(),
        is_negated: false,
        is_retrying: false,
        actual_params,
        children: vec![],
        content_address: ca(0, 0),
        is_group: false,
    };

    let inst = make_check_instance(&mut ccfo, &fns, ast_check_def).unwrap();
    predikit::compiler::typecheck_check_params(&mut ccfo, &inst);
    println!("{:#?}", ccfo);
    assert_eq!(1, ccfo.errors.len());
    let extra_param_err = ccfo.errors.first().unwrap();
    assert_eq!(
        "Unexpected param \"extra_param\" for check: for_testing_only!",
        extra_param_err.message
    );
}

#[test]
fn test_typecheck_check_invalid_param_type() {
    let mut ccfo = CompiledCheckFileOut::new(Some("foo.pk".to_string()));
    let mut fns = ChkDefRegistry::new_with_builtins();
    fns.register_fn("for_testing_only!".to_string(), get_test_only_check_fn());

    let mut actual_params: AstActualParams = StrMap::new();
    actual_params.insert(
        "int_param".to_string(), // note that int_param is using new_string
        ChkActualParam::new_string("int_param".to_string(), "foo.pk".to_string(), ca(0, 5)),
    );
    actual_params.insert(
        "str_param".to_string(), // note that str_param is using new_int
        ChkActualParam::new_int("str_param".to_string(), 99, ca(25, 30)),
    );
    actual_params.insert(
        "bool_param".to_string(),
        ChkActualParam::new_bool("bool_param".to_string(), false, ca(50, 55)),
    );

    let ast_check_def = AstCheckDef {
        fn_name: "for_testing_only!".to_string(),
        is_negated: false,
        is_retrying: false,
        actual_params,
        children: vec![],
        content_address: ca(0, 0),
        is_group: false,
    };

    let inst = make_check_instance(&mut ccfo, &fns, ast_check_def).unwrap();
    predikit::compiler::typecheck_check_params(&mut ccfo, &inst);
    println!("{:#?}", ccfo);
    assert_eq!(2, ccfo.errors.len());

    let expected_int_err_expected =
        "Invalid parameter type for check for_testing_only! param 'int_param'. Got type String, but expected type Int".to_string();
    assert!(ccfo
        .errors
        .iter()
        .find(|e| e.message == expected_int_err_expected)
        .is_some());

    let expected_string_err_expected =
        "Invalid parameter type for check for_testing_only! param 'str_param'. Got type Int, but expected type String".to_string();
    assert!(ccfo
        .errors
        .iter()
        .find(|e| e.message == expected_string_err_expected)
        .is_some());
}

#[test]
fn test_typecheck_paths() {
    let mut ccfo = CompiledCheckFileOut::new(Some("foo.pk".to_string()));
    let mut fns = ChkDefRegistry::new_with_builtins();
    fns.register_fn(
        "for_testing_paths_only!".to_string(),
        get_test_only_check_fn_with_paths(),
    );

    let mut actual_params: AstActualParams = StrMap::new();
    actual_params.insert(
        "path_param1".to_string(),
        ChkActualParam::new_path("path_param1".to_string(), "foo.pk".to_string(), ca(0, 5)),
    );

    // Path param type CAN accept strings
    actual_params.insert(
        "path_param2".to_string(),
        ChkActualParam::new_string("path_param2".to_string(), "foo.pk".to_string(), ca(6, 10)),
    );

    // String param type CAN'T accept paths
    actual_params.insert(
        "str_param1".to_string(),
        ChkActualParam::new_path("str_param1".to_string(), "foo.pk".to_string(), ca(25, 30)),
    );

    actual_params.insert(
        "str_param2".to_string(),
        ChkActualParam::new_string("str_param2".to_string(), "foo.pk".to_string(), ca(31, 35)),
    );

    let ast_check_def = AstCheckDef {
        fn_name: "for_testing_paths_only!".to_string(),
        is_negated: false,
        is_retrying: false,
        actual_params,
        children: vec![],
        content_address: ca(0, 0),
        is_group: false,
    };

    let inst = make_check_instance(&mut ccfo, &fns, ast_check_def).unwrap();
    predikit::compiler::typecheck_check_params(&mut ccfo, &inst);
    assert_eq!(1, ccfo.errors.len());

    assert_eq!(ccfo.errors.first().unwrap().message,
        "Invalid parameter type for check for_testing_paths_only! param 'str_param1'. Got type Path, but expected type String".to_string());
}

fn leaf_node(fn_name: &str, param: &str, value: &str) -> AstCheckDef {
    let mut actual_params: AstActualParams = StrMap::new();
    actual_params.insert(
        param.to_string(),
        ChkActualParam::new_string(param.to_string(), value.to_string(), ca(0, 0)),
    );
    AstCheckDef {
        fn_name: fn_name.to_string(),
        is_negated: false,
        is_retrying: false,
        actual_params,
        children: vec![],
        content_address: ca(0, 0),
        is_group: false,
    }
}

#[test]
fn test_compile_checks_to_asts() {
    let fns = ChkDefRegistry::new_with_builtins();
    let checks = vec![
        leaf_node("exists?", "path", "a"),
        AstCheckDef {
            fn_name: "all".to_string(),
            is_negated: false,
            is_retrying: false,
            actual_params: StrMap::new(),
            children: vec![leaf_node("exists?", "path", "b"), leaf_node("exists?", "path", "c")],
            content_address: ca(0, 0),
            is_group: true,
        },
    ];
    let file = AstFileChecks::new(Some("foo.pk".to_string()), checks);
    let out = compile_checks_to_asts(&fns, vec![file]);
    assert_eq!(out.len(), 1);
    let cfo = &out[0];
    assert!(cfo.errors.is_empty());
    assert_eq!(cfo.instances.len(), 2);
    // Construction (post-) order: children take their ids before parents.
    assert_eq!(cfo.instances[0].instance_id, 1000);
    let group = &cfo.instances[1];
    assert_eq!(group.children[0].instance_id, 1001);
    assert_eq!(group.children[1].instance_id, 1002);
    assert_eq!(group.instance_id, 1003);
}

// The compiler assigns exactly one id per instance, strictly increasing in
// construction order, restarting at 1000 for each file.
#[test]
fn instance_ids_restart_for_each_file() {
    let fns = ChkDefRegistry::new_with_builtins();
    let mk_file = |name: &str| {
        AstFileChecks::new(
            Some(name.to_string()),
            vec![leaf_node("exists?", "path", "a"), leaf_node("exists?", "path", "b")],
        )
    };
    let out = compile_checks_to_asts(&fns, vec![mk_file("one.pk"), mk_file("two.pk")]);
    assert_eq!(out.len(), 2);
    for cfo in &out {
        assert_eq!(cfo.instances[0].instance_id, 1000);
        assert_eq!(cfo.instances[1].instance_id, 1001);
    }
}

// Compiling the same raw tree twice with the same registry gives instance
// trees that agree in every observable field, ids included.
#[test]
fn compile_twice_same_structure() {
    let fns = ChkDefRegistry::new_with_builtins();
    let mk = || {
        AstFileChecks::new(
            Some("foo.pk".to_string()),
            vec![AstCheckDef {
                fn_name: "any".to_string(),
                is_negated: false,
                is_retrying: false,
                actual_params: StrMap::new(),
                children: vec![leaf_node("exists?", "path", "x")],
                content_address: ca(3, 9),
                is_group: true,
            }],
        )
    };
    let a = compile_checks_to_asts(&fns, vec![mk()]);
    let b = compile_checks_to_asts(&fns, vec![mk()]);
    let (ia, ib) = (&a[0].instances[0], &b[0].instances[0]);
    assert_eq!(ia.instance_id, ib.instance_id);
    assert_eq!(ia.fn_def.name, ib.fn_def.name);
    assert_eq!(ia.negated, ib.negated);
    assert_eq!(ia.content_address, ib.content_address);
    assert_eq!(ia.children.len(), ib.children.len());
    assert_eq!(ia.children[0].instance_id, ib.children[0].instance_id);
    assert_eq!(ia.children[0].fn_def.name, ib.children[0].fn_def.name);
}

fn tool_param_map(entries: Vec<(&str, ChkActualParam)>) -> AstActualParams {
    let mut m: AstActualParams = StrMap::new();
    for (k, v) in entries {
        m.insert(k.to_string(), v);
    }
    m
}

#[test]
fn test_make_tools() {
    let mut fns = ChkDefRegistry::new_with_builtins();
    let mut template_params: AstActualParams = StrMap::new();
    template_params.insert(
        "cmd_template".to_string(),
        ChkActualParam::new_string("cmd_template".to_string(), "echo {{msg}}".to_string(), ca(0, 0)),
    );
    let mut instance_params: AstToolInstanceParams = StrMap::new();
    instance_params.insert(
        "msg".to_string(),
        tool_param_map(vec![
            (
                "type",
                ChkActualParam::new_named_type("type".to_string(), NamedType::PtnString, ca(0, 0)),
            ),
            ("required", ChkActualParam::new_bool("required".to_string(), true, ca(0, 0))),
        ]),
    );
    let tool = AstToolDef::new(
        "echoes?".to_string(),
        ca(0, 12),
        AstToolDefParams::new(template_params, instance_params),
    );
    let file = AstFileTools::new(Some("tools.pk".to_string()), vec![tool]);
    let errors = make_tools(&mut fns, vec![file]);
    assert!(errors.is_empty());
    let def = fns.get_fn("echoes?").unwrap();
    assert_eq!(def.check_fn, ChkFnKind::ToolTemplate);
    assert!(!def.is_group);
    assert!(def.template_params.is_some());
}

// An unknown key in a tool's instance parameters is a compile error that
// names the key, and no tool of the batch registers.
#[test]
fn unknown_tool_param_key_blocks_registration() {
    let mut fns = ChkDefRegistry::new_with_builtins();

    let good_tool = AstToolDef::new(
        "good?".to_string(),
        ca(0, 5),
        AstToolDefParams::new(
            tool_param_map(vec![(
                "cmd_template",
                ChkActualParam::new_string("cmd_template".to_string(), "true".to_string(), ca(0, 0)),
            )]),
            {
                let mut ip: AstToolInstanceParams = StrMap::new();
                ip.insert(
                    "arg".to_string(),
                    tool_param_map(vec![
                        (
                            "type",
                            ChkActualParam::new_named_type(
                                "type".to_string(),
                                NamedType::PtnString,
                                ca(0, 0),
                            ),
                        ),
                        (
                            "required",
                            ChkActualParam::new_bool("required".to_string(), true, ca(0, 0)),
                        ),
                    ]),
                );
                ip
            },
        ),
    );

    let bad_tool = AstToolDef::new(
        "bad?".to_string(),
        ca(10, 20),
        AstToolDefParams::new(tool_param_map(vec![]), {
            let mut ip: AstToolInstanceParams = StrMap::new();
            ip.insert(
                "arg".to_string(),
                tool_param_map(vec![
                    ("foo", ChkActualParam::new_int("foo".to_string(), 1, ca(0, 0))),
                    (
                        "type",
                        ChkActualParam::new_named_type(
                            "type".to_string(),
                            NamedType::PtnString,
                            ca(0, 0),
                        ),
                    ),
                    (
                        "required",
                        ChkActualParam::new_bool("required".to_string(), true, ca(0, 0)),
                    ),
                ]),
            );
            ip
        }),
    );

    let file = AstFileTools::new(Some("tools.pk".to_string()), vec![good_tool, bad_tool]);
    let errors = make_tools(&mut fns, vec![file]);
    assert_eq!(errors.len(), 1);
    assert!(errors[0].message.contains("Unknown keys found in tool instance params"));
    assert!(errors[0].message.contains("foo"));
    // Fail-closed: the valid tool of the batch is not registered either.
    assert!(fns.get_fn("good?").is_none());
    assert!(fns.get_fn("bad?").is_none());
}
