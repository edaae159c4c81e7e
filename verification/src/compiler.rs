//! The semantic compiler: resolves raw check trees against the registry,
//! assigns instance ids, materializes parameter schemas, type-checks actual
//! parameters (accumulating every diagnostic instead of stopping at the
//! first), and registers user-declared tools.
use vstd::prelude::*;

use crate::ast::{AstCheckDef, AstFileChecks, AstFileTools};
use crate::data::{ChkDef, ChkDefRegistry, ChkFnKind, ChkFormalParam, ChkParamType};
use crate::instance::{
    forest_ids, materialized_ok, tree_ids, ChkInstance,
};
use crate::params::ContentAddress;
use crate::tools::ToolDef;
use crate::ChkInstId;

verus! {

/// The severity of a compile diagnostic.
#[derive(Clone, Copy, PartialEq, Eq, Structural, Debug)]
pub enum CompilerErrorType {
    Warning,
    Error,
}

/// One compile diagnostic: where it points, what it says, how severe it is.
#[derive(Debug)]
pub struct CompileError {
    pub filename: Option<String>,
    pub content_address: ContentAddress,
    pub message: String,
    pub error_type: CompilerErrorType,
}

impl Clone for CompileError {
    fn clone(&self) -> (res: Self)
        ensures
            res == *self,
    {
        CompileError {
            filename: duplicate_filename(&self.filename),
            content_address: self.content_address,
            message: self.message.clone(),
            error_type: self.error_type,
        }
    }
}

/// Copies an optional file name.
pub fn duplicate_filename(o: &Option<String>) -> (r: Option<String>)
    ensures
        r == *o,
{
    match o {
        Some(s) => Some(s.clone()),
        None => None,
    }
}

/// The compiled output of one input file: the id counter, every diagnostic
/// the file produced, and the instance trees. A file with any error must
/// not be executed.
#[derive(Debug)]
pub struct CompiledCheckFileOut<'chkdef> {
    pub next_id: usize,
    pub filename: Option<String>,
    pub errors: Vec<CompileError>,
    pub instances: Vec<ChkInstance<'chkdef>>,
}

impl<'a> CompiledCheckFileOut<'a> {
    pub fn new(filename: Option<String>) -> (r: Self)
        ensures
            r.next_id == crate::FIRST_INSTANCE_ID,
            r.filename == filename,
            r.errors@.len() == 0,
            r.instances@.len() == 0,
    {
        CompiledCheckFileOut {
            next_id: crate::FIRST_INSTANCE_ID,
            errors: Vec::new(),
            filename,
            instances: Vec::new(),
        }
    }

    /// Hands out the next instance id and advances the counter.
    pub fn next_id(&mut self) -> (id: usize)
        requires
            old(self).next_id < usize::MAX,
        ensures
            id == old(self).next_id,
            *final(self) == (CompiledCheckFileOut {
                next_id: (old(self).next_id + 1) as usize,
                ..*old(self)
            }),
    {
        let id = self.next_id;
        self.next_id = self.next_id + 1;
        id
    }

    pub fn add_error(&mut self, filename: Option<String>, position: ContentAddress, message: String)
        ensures
            *final(self) == (CompiledCheckFileOut {
                errors: final(self).errors,
                ..*old(self)
            }),
            final(self).errors@ == old(self).errors@.push(
                CompileError {
                    filename,
                    content_address: position,
                    message,
                    error_type: CompilerErrorType::Error,
                },
            ),
    {
        let content_address = position;
        self.errors.push(
            CompileError { filename, content_address, message, error_type: CompilerErrorType::Error },
        );
    }

    pub fn add_instance(&mut self, inst: ChkInstance<'a>)
        ensures
            *final(self) == (CompiledCheckFileOut {
                instances: final(self).instances,
                ..*old(self)
            }),
            final(self).instances@ == old(self).instances@.push(inst),
    {
        self.instances.push(inst);
    }
}

/// The number of nodes in a raw check tree.
pub open spec fn ast_size(node: AstCheckDef) -> nat
    decreases node,
{
    1 + ast_forest_size(node.children@)
}

/// The number of nodes in a forest of raw check trees.
pub open spec fn ast_forest_size(s: Seq<AstCheckDef>) -> nat
    decreases s,
{
    if s.len() == 0 {
        0
    } else {
        ast_size(s.first()) + ast_forest_size(s.drop_first())
    }
}

pub proof fn lemma_ast_forest_size_take_step(s: Seq<AstCheckDef>, j: int)
    requires
        0 <= j < s.len(),
    ensures
        ast_forest_size(s.take(j + 1)) == ast_forest_size(s.take(j)) + ast_size(s[j]),
    decreases j,
{
    if j == 0 {
        assert(s.take(0) =~= Seq::<AstCheckDef>::empty());
        assert(s.take(1).first() == s[0]);
        assert(s.take(1).drop_first() =~= Seq::<AstCheckDef>::empty());
    } else {
        let t = s.drop_first();
        lemma_ast_forest_size_take_step(t, j - 1);
        assert(s.take(j + 1).first() == s.first());
        assert(s.take(j + 1).drop_first() =~= t.take(j));
        assert(s.take(j).first() == s.first());
        assert(s.take(j).drop_first() =~= t.take(j - 1));
        assert(t[j - 1] == s[j]);
    }
}

/// The consecutive ids `start`, `start + 1`, ..., `start + n - 1`.
pub open spec fn id_run(start: int, n: int) -> Seq<ChkInstId> {
    Seq::new(n as nat, |i: int| (start + i) as usize)
}

/// Appending a tree's ids to a run of ids continues the run.
pub proof fn lemma_forest_ids_push(s: Seq<ChkInstance>, x: ChkInstance)
    ensures
        forest_ids(s.push(x)) == forest_ids(s) + tree_ids(x),
{
    crate::instance::lemma_forest_ids_take_step(s.push(x), s.len() as int);
    assert(s.push(x).take(s.len() as int) =~= s);
    assert(s.push(x).take(s.len() as int + 1) =~= s.push(x));
    assert(s.push(x)[s.len() as int] == x);
}

/// Whether every function name in the tree resolves against the registry:
/// group names against the group map, leaf names against the check map.
pub open spec fn resolvable(reg: ChkDefRegistry, node: AstCheckDef) -> bool
    decreases node,
{
    &&& (if node.is_group {
        reg.group_fns.contains_key_spec(node.fn_name@)
    } else {
        reg.check_fns.contains_key_spec(node.fn_name@)
    })
    &&& forall|j: int|
        0 <= j < node.children@.len() ==> resolvable(reg, #[trigger] node.children@[j])
}

/// Whether the node's own name resolves in its namespace.
pub open spec fn own_name_resolves(reg: ChkDefRegistry, node: AstCheckDef) -> bool {
    if node.is_group {
        reg.group_fns.contains_key_spec(node.fn_name@)
    } else {
        reg.check_fns.contains_key_spec(node.fn_name@)
    }
}

/// Whether `nd` is a node of the tree rooted at `node`.
pub open spec fn ast_tree_has(node: AstCheckDef, nd: AstCheckDef) -> bool
    decreases node,
{
    ||| nd == node
    ||| exists|j: int| 0 <= j < node.children@.len() && ast_tree_has(#[trigger] node.children@[j], nd)
}

/// The definition a node's name resolves to.
pub open spec fn node_def(reg: ChkDefRegistry, node: AstCheckDef) -> ChkDef {
    if node.is_group {
        reg.group_fns.as_map()[node.fn_name@]
    } else {
        reg.check_fns.as_map()[node.fn_name@]
    }
}

/// Whether `inst` is the instance tree the compiler builds from `node`:
/// the resolved definition, the node's own parameters and flags, a
/// materialized schema, and children built the same way in order. Titles
/// start empty and nodes are not queries.
pub open spec fn instance_matches_ast(
    reg: ChkDefRegistry,
    node: AstCheckDef,
    inst: ChkInstance,
) -> bool
    decreases node,
{
    &&& *inst.fn_def == node_def(reg, node)
    &&& inst.title is None
    &&& inst.actual_params == node.actual_params
    &&& inst.materialized_formal_params matches Some(m) && materialized_ok(
        inst.fn_def.formal_params.as_map(),
        node.is_retrying,
        m,
    )
    &&& inst.negated == node.is_negated
    &&& inst.is_retrying == node.is_retrying
    &&& inst.content_address == node.content_address
    &&& !inst.is_query
    &&& inst.children@.len() == node.children@.len()
    &&& forall|j: int|
        0 <= j < node.children@.len() ==> instance_matches_ast(
            reg,
            #[trigger] node.children@[j],
            inst.children@[j],
        )
}

/// The message reported for an unresolved function name.
pub open spec fn unknown_fn_msg(name: Seq<char>) -> Seq<char> {
    "Unknown function "@ + name
}

/// Every definition held by the registry has a well-formed formal-parameter
/// map (the registry's own constructors keep it that way).
pub open spec fn defs_wf(reg: ChkDefRegistry) -> bool {
    &&& forall|j: int|
        0 <= j < reg.check_fns@.len() ==> (#[trigger] reg.check_fns@[j].1).formal_params.wf()
    &&& forall|j: int|
        0 <= j < reg.group_fns@.len() ==> (#[trigger] reg.group_fns@[j].1).formal_params.wf()
}

/// Resolves one raw tree bottom-up: children first, then the node's own
/// name; a node whose name does not resolve is dropped with an `Unknown
/// function` diagnostic and fails its parent, but never stops the walk of
/// siblings higher up. On success the returned tree carries fresh,
/// consecutive ids in construction (post-) order. Type-checking happens
/// later, over the whole file.
pub fn make_check_instance<'a>(
    cfo: &mut CompiledCheckFileOut<'a>,
    fns: &'a ChkDefRegistry,
    ast_check_def: AstCheckDef,
) -> (r: Option<ChkInstance<'a>>)
    requires
        fns.wf(),
        defs_wf(*fns),
        old(cfo).next_id + ast_size(ast_check_def) <= usize::MAX,
    ensures
        final(cfo).filename == old(cfo).filename,
        final(cfo).instances == old(cfo).instances,
        old(cfo).errors@.is_prefix_of(final(cfo).errors@),
        old(cfo).next_id <= final(cfo).next_id <= old(cfo).next_id + ast_size(ast_check_def),
        r is Some <==> resolvable(*fns, ast_check_def),
        r matches Some(inst) ==> {
            &&& final(cfo).errors@ == old(cfo).errors@
            &&& final(cfo).next_id == old(cfo).next_id + ast_size(ast_check_def)
            &&& instance_matches_ast(*fns, ast_check_def, inst)
            &&& tree_ids(inst) == id_run(old(cfo).next_id as int, ast_size(ast_check_def) as int)
        },
        r is None ==> final(cfo).errors@.len() == old(cfo).errors@.len() + 1,
        r is None ==> exists|nd: AstCheckDef|
            {
                &&& #[trigger] ast_tree_has(ast_check_def, nd)
                &&& !own_name_resolves(*fns, nd)
                &&& diags_view(final(cfo).errors@) == diags_view(old(cfo).errors@).push(
                    DiagV {
                        filename: opt_view(old(cfo).filename),
                        addr: nd.content_address,
                        msg: unknown_fn_msg(nd.fn_name@),
                        warning: false,
                    },
                )
            },
        (!resolvable(*fns, ast_check_def) && (forall|j: int|
            0 <= j < ast_check_def.children@.len() ==> resolvable(
                *fns,
                #[trigger] ast_check_def.children@[j],
            ))) ==> final(cfo).errors@ == old(cfo).errors@.push(
            CompileError {
                filename: old(cfo).filename,
                content_address: ast_check_def.content_address,
                message: final(cfo).errors@.last().message,
                error_type: CompilerErrorType::Error,
            },
        ) && final(cfo).errors@.last().message@ == unknown_fn_msg(ast_check_def.fn_name@),
    decreases ast_check_def,
{
    let ghost g_node = ast_check_def;
    let ghost start_id = old(cfo).next_id as int;
    let AstCheckDef { fn_name, is_negated, is_retrying, actual_params, children: ast_children, content_address, is_group } =
        ast_check_def;
    let ghost g_kids = ast_children@;
    let mut children: Vec<ChkInstance<'a>> = Vec::new();
    let mut rest = ast_children;
    proof {
        assert(g_kids.skip(0) =~= g_kids);
        assert(g_kids.take(0) =~= Seq::<AstCheckDef>::empty());
        assert(forest_ids(Seq::<ChkInstance>::empty()) =~= id_run(start_id, 0));
    }
    while rest.len() > 0
        invariant
            g_node == ast_check_def,
            start_id == old(cfo).next_id as int,
            fns.wf(),
            defs_wf(*fns),
            rest@ == g_kids.skip(g_kids.len() - rest@.len()),
            children@.len() == g_kids.len() - rest@.len(),
            cfo.filename == old(cfo).filename,
            cfo.instances == old(cfo).instances,
            cfo.errors@ == old(cfo).errors@,
            cfo.next_id as int == start_id + ast_forest_size(g_kids.take(g_kids.len() - rest@.len())),
            start_id + ast_size(g_node) <= usize::MAX,
            g_node.children@ == g_kids,
            forall|l: int|
                0 <= l < children@.len() ==> resolvable(*fns, #[trigger] g_kids[l])
                    && instance_matches_ast(*fns, g_kids[l], children@[l]),
            forest_ids(children@) == id_run(
                start_id,
                ast_forest_size(g_kids.take(g_kids.len() - rest@.len())) as int,
            ),
        decreases rest@.len(),
    {
        let ghost done = g_kids.len() - rest@.len();
        let ghost pre_next = cfo.next_id as int;
        proof {
            assert(g_kids.skip(done as int)[0] == g_kids[done as int]);
            // the remaining subtrees fit in the id budget
            lemma_ast_forest_size_take_step(g_kids, done as int);
            lemma_ast_size_bounds(g_node, g_kids, done as int);
        }
        let child = rest.remove(0);
        proof {
            assert(child == g_kids[done as int]);
            assert(rest@ =~= g_kids.skip(done as int + 1));
            assert(decreases_to!(g_node => g_node.children));
            assert(decreases_to!(g_node.children => g_node.children[done as int]));
            assert(g_node.children[done as int] == child);
            assert(decreases_to!(g_node => child));
        }
        let child_inst_opt = make_check_instance(cfo, fns, child);
        match child_inst_opt {
            Some(child_inst) => {
                proof {
                    lemma_forest_ids_push(children@, child_inst);
                    assert(forest_ids(children@.push(child_inst)) =~= id_run(
                        start_id,
                        ast_forest_size(g_kids.take(done as int + 1)) as int,
                    ));
                }
                children.push(child_inst);
            },
            None => {
                proof {
                    assert(!resolvable(*fns, g_kids[done as int]));
                    assert(!resolvable(*fns, g_node));
                    assert(cfo.next_id as int <= pre_next + ast_size(child));
                    assert(ast_forest_size(g_kids.take(done as int)) + ast_size(
                        g_kids[done as int],
                    ) + 1 <= ast_size(g_node));
                    assert(cfo.next_id as int <= start_id + ast_size(g_node));
                    // The failing subtree reported exactly one unresolved
                    // name; the parent adds nothing of its own.
                    let nd = choose|nd: AstCheckDef|
                        {
                            &&& #[trigger] ast_tree_has(child, nd)
                            &&& !own_name_resolves(*fns, nd)
                            &&& diags_view(cfo.errors@) == diags_view(old(cfo).errors@).push(
                                DiagV {
                                    filename: opt_view(old(cfo).filename),
                                    addr: nd.content_address,
                                    msg: unknown_fn_msg(nd.fn_name@),
                                    warning: false,
                                },
                            )
                        };
                    assert(ast_tree_has(g_node, nd)) by {
                        assert(ast_tree_has(g_node.children@[done as int], nd));
                    }
                }
                return None;
            },
        }
    }
    proof {
        assert(g_kids.take(g_kids.len() as int) =~= g_kids);
    }

    let fn_def = if is_group {
        fns.get_group_fn(fn_name.as_str())
    } else {
        fns.get_fn(fn_name.as_str())
    };

    match fn_def {
        None => {
            let fname = duplicate_filename(&cfo.filename);
            let msg = String::from_str("Unknown function ").concat(fn_name.as_str());
            let ghost msg_view = msg@;
            let ghost pre_errors = cfo.errors@;
            cfo.add_error(fname, content_address, msg);
            proof {
                assert(!resolvable(*fns, g_node));
                assert(!own_name_resolves(*fns, g_node));
                assert(ast_tree_has(g_node, g_node));
                assert(msg_view =~= unknown_fn_msg(g_node.fn_name@));
                assert(diags_view(cfo.errors@) =~= diags_view(pre_errors).push(
                    diag_view(cfo.errors@.last()),
                ));
                assert(diag_view(cfo.errors@.last()) == DiagV {
                    filename: opt_view(old(cfo).filename),
                    addr: g_node.content_address,
                    msg: unknown_fn_msg(g_node.fn_name@),
                    warning: false,
                });
            }
            None
        },
        Some(def) => {
            let instance_id = cfo.next_id();
            let mut inst = ChkInstance {
                title: None,
                fn_def: def,
                actual_params,
                materialized_formal_params: None,
                children,
                negated: is_negated,
                is_retrying,
                instance_id,
                content_address,
                is_query: false,
            };
            proof {
                lemma_def_lookup_wf(*fns, g_node);
            }
            inst.materialize_formal_params();
            proof {
                assert(resolvable(*fns, g_node));
                assert(instance_matches_ast(*fns, g_node, inst));
                assert(tree_ids(inst) =~= id_run(start_id, ast_size(g_node) as int));
            }
            Some(inst)
        },
    }
}

/// The subtrees of a node never outgrow the node's own size.
proof fn lemma_ast_size_bounds(node: AstCheckDef, kids: Seq<AstCheckDef>, j: int)
    requires
        node.children@ == kids,
        0 <= j < kids.len(),
    ensures
        ast_forest_size(kids.take(j)) + ast_size(kids[j]) + 1 <= ast_size(node),
{
    lemma_ast_forest_size_split(kids, j);
    assert(kids.skip(j).first() == kids[j]);
    assert(kids.skip(j).drop_first() =~= kids.skip(j + 1));
    assert(ast_forest_size(kids.skip(j)) == ast_size(kids[j]) + ast_forest_size(kids.skip(j + 1)));
}

/// A forest's size splits at any point.
proof fn lemma_ast_forest_size_split(s: Seq<AstCheckDef>, j: int)
    requires
        0 <= j <= s.len(),
    ensures
        ast_forest_size(s) == ast_forest_size(s.take(j)) + ast_forest_size(s.skip(j)),
    decreases j,
{
    if j == 0 {
        assert(s.take(0) =~= Seq::<AstCheckDef>::empty());
        assert(s.skip(0) =~= s);
    } else {
        let t = s.drop_first();
        lemma_ast_forest_size_split(t, j - 1);
        assert(s.take(j).first() == s.first());
        assert(s.take(j).drop_first() =~= t.take(j - 1));
        assert(s.skip(j) =~= t.skip(j - 1));
        assert(ast_forest_size(s.take(j)) == ast_size(s.first()) + ast_forest_size(t.take(j - 1)));
        assert(ast_forest_size(s) == ast_size(s.first()) + ast_forest_size(t));
    }
}

/// The view of an optional file name.
pub open spec fn opt_view(o: Option<String>) -> Option<Seq<char>> {
    match o {
        Some(s) => Some(s@),
        None => None,
    }
}

/// What a diagnostic says, where it points, and how severe it is, at the
/// level of character sequences.
pub ghost struct DiagV {
    pub filename: Option<Seq<char>>,
    pub addr: ContentAddress,
    pub msg: Seq<char>,
    pub warning: bool,
}

pub open spec fn diag_view(e: CompileError) -> DiagV {
    DiagV {
        filename: opt_view(e.filename),
        addr: e.content_address,
        msg: e.message@,
        warning: e.error_type == CompilerErrorType::Warning,
    }
}

pub open spec fn diags_view(s: Seq<CompileError>) -> Seq<DiagV> {
    s.map_values(|e: CompileError| diag_view(e))
}

/// Whether an actual value is accepted where a formal parameter declares
/// type `t`: a `Path` formal accepts `Path` or `String` values, every other
/// formal type only its exact tag.
pub open spec fn param_type_ok(t: ChkParamType, v: crate::params::ChkParamInternalValue) -> bool {
    if t == ChkParamType::PkPath {
        v is PkString || v is PkPath
    } else {
        crate::params::value_has_type(v, t)
    }
}

/// The type name a mismatch diagnostic expects.
pub open spec fn expected_type_name(t: ChkParamType) -> Seq<char> {
    if t == ChkParamType::PkPath {
        "String or Path"@
    } else {
        crate::data::param_type_name(t)
    }
}

/// The predicate selecting required formal parameters with no actual value.
pub open spec fn missing_pred(inst: ChkInstance) -> spec_fn((Seq<char>, ChkFormalParam)) -> bool {
    |e: (Seq<char>, ChkFormalParam)|
        e.1.required && !crate::strmap::entries_contain_key(inst.actual_params@, e.1.name@)
}

/// Projects a formal-parameter entry to its declared name.
pub open spec fn formal_entry_name() -> spec_fn((Seq<char>, ChkFormalParam)) -> Seq<char> {
    |e: (Seq<char>, ChkFormalParam)| e.1.name@
}

/// Builds the missing-required diagnostic for one parameter name.
pub open spec fn missing_diag_of(fname: Option<Seq<char>>, inst: ChkInstance) -> spec_fn(
    Seq<char>,
) -> DiagV {
    |p: Seq<char>|
        DiagV {
            filename: fname,
            addr: inst.content_address,
            msg: required_missing_msg(inst.fn_def.name@, p),
            warning: false,
        }
}

/// The predicate selecting actual parameters no formal declares.
pub open spec fn unexpected_pred(inst: ChkInstance) -> spec_fn(
    (Seq<char>, crate::params::ChkActualParam),
) -> bool {
    |e: (Seq<char>, crate::params::ChkActualParam)|
        !crate::strmap::entries_contain_key(inst.materialized_formal_params->0@, e.0)
}

/// Builds the unexpected-parameter diagnostic for one actual entry.
pub open spec fn unexpected_diag_of(fname: Option<Seq<char>>, inst: ChkInstance) -> spec_fn(
    (Seq<char>, crate::params::ChkActualParam),
) -> DiagV {
    |e: (Seq<char>, crate::params::ChkActualParam)|
        DiagV {
            filename: fname,
            addr: inst.content_address,
            msg: unexpected_param_msg(e.0, inst.fn_def.name@),
            warning: false,
        }
}

/// The predicate selecting formal parameters whose bound actual value has
/// the wrong tag.
pub open spec fn type_err_pred(inst: ChkInstance) -> spec_fn((Seq<char>, ChkFormalParam)) -> bool {
    |e: (Seq<char>, ChkFormalParam)|
        crate::strmap::entries_contain_key(inst.actual_params@, e.0) && !param_type_ok(
            e.1.param_type,
            crate::strmap::entries_value_of(inst.actual_params@, e.0).value,
        )
}

/// Builds the type-mismatch diagnostic for one formal entry.
pub open spec fn type_err_diag_of(fname: Option<Seq<char>>, inst: ChkInstance) -> spec_fn(
    (Seq<char>, ChkFormalParam),
) -> DiagV {
    |e: (Seq<char>, ChkFormalParam)|
        {
            let ap = crate::strmap::entries_value_of(inst.actual_params@, e.0);
            DiagV {
                filename: fname,
                addr: ap.content_address,
                msg: invalid_type_msg(
                    inst.fn_def.name@,
                    e.0,
                    crate::params::value_type_name(ap.value),
                    expected_type_name(e.1.param_type),
                ),
                warning: false,
            }
        }
}

pub open spec fn required_missing_msg(f: Seq<char>, p: Seq<char>) -> Seq<char> {
    "Required parameter is missing for check "@ + f + ": "@ + p
}

pub open spec fn unexpected_param_msg(p: Seq<char>, f: Seq<char>) -> Seq<char> {
    "Unexpected param \""@ + p + "\" for check: "@ + f
}

pub open spec fn invalid_type_msg(f: Seq<char>, p: Seq<char>, got: Seq<char>, expected: Seq<char>) -> Seq<char> {
    "Invalid parameter type for check "@ + f + " param '"@ + p + "'. Got type "@ + got
        + ", but expected type "@ + expected
}

/// The names of required formal parameters with no actual value, in
/// lexicographic order.
pub open spec fn missing_required_names(inst: ChkInstance) -> Seq<Seq<char>> {
    inst.materialized_formal_params->0@.filter(missing_pred(inst)).map_values(
        formal_entry_name(),
    ).sort_by(crate::strutil::str_leq())
}

/// The missing-required diagnostics of one instance, in lexicographically
/// sorted order by parameter name.
pub open spec fn missing_diags(fname: Option<Seq<char>>, inst: ChkInstance) -> Seq<DiagV> {
    missing_required_names(inst).map_values(missing_diag_of(fname, inst))
}

/// The unexpected-parameter diagnostics of one instance, in parameter entry
/// order.
pub open spec fn unexpected_diags(fname: Option<Seq<char>>, inst: ChkInstance) -> Seq<DiagV> {
    inst.actual_params@.filter(unexpected_pred(inst)).map_values(unexpected_diag_of(fname, inst))
}

/// The type-mismatch diagnostics of one instance, in formal-parameter entry
/// order, each pointing at the offending actual value.
pub open spec fn type_error_diags(fname: Option<Seq<char>>, inst: ChkInstance) -> Seq<DiagV> {
    inst.materialized_formal_params->0@.filter(type_err_pred(inst)).map_values(
        type_err_diag_of(fname, inst),
    )
}

/// All type-checking diagnostics of one instance, in emission order.
pub open spec fn node_diags(fname: Option<Seq<char>>, inst: ChkInstance) -> Seq<DiagV> {
    missing_diags(fname, inst) + unexpected_diags(fname, inst) + type_error_diags(fname, inst)
}

/// All type-checking diagnostics of a tree: the node's own, then each
/// child's in order.
pub open spec fn tree_diags(fname: Option<Seq<char>>, inst: ChkInstance) -> Seq<DiagV>
    decreases inst,
{
    node_diags(fname, inst) + forest_diags(fname, inst.children@)
}

pub open spec fn forest_diags(fname: Option<Seq<char>>, s: Seq<ChkInstance>) -> Seq<DiagV>
    decreases s,
{
    if s.len() == 0 {
        Seq::empty()
    } else {
        tree_diags(fname, s.first()) + forest_diags(fname, s.drop_first())
    }
}

proof fn lemma_forest_diags_take_step(fname: Option<Seq<char>>, s: Seq<ChkInstance>, j: int)
    requires
        0 <= j < s.len(),
    ensures
        forest_diags(fname, s.take(j + 1)) == forest_diags(fname, s.take(j)) + tree_diags(
            fname,
            s[j],
        ),
    decreases j,
{
    if j == 0 {
        assert(s.take(0) =~= Seq::<ChkInstance>::empty());
        assert(s.take(1).first() == s[0]);
        assert(s.take(1).drop_first() =~= Seq::<ChkInstance>::empty());
        assert(forest_diags(fname, s.take(1)) =~= forest_diags(fname, s.take(0)) + tree_diags(
            fname,
            s[0],
        ));
    } else {
        let t = s.drop_first();
        lemma_forest_diags_take_step(fname, t, j - 1);
        assert(s.take(j + 1).first() == s.first());
        assert(s.take(j + 1).drop_first() =~= t.take(j));
        assert(s.take(j).first() == s.first());
        assert(s.take(j).drop_first() =~= t.take(j - 1));
        assert(t[j - 1] == s[j]);
        assert(forest_diags(fname, s.take(j + 1)) =~= forest_diags(fname, s.take(j)) + tree_diags(
            fname,
            s[j],
        ));
    }
}

/// What type-checking needs of an instance tree: materialized, well-formed
/// parameter maps at every node.
pub open spec fn inst_tc_wf(inst: ChkInstance) -> bool
    decreases inst,
{
    &&& inst.materialized_formal_params matches Some(m) && m.wf()
    &&& inst.actual_params.wf()
    &&& forall|j: int| 0 <= j < inst.children@.len() ==> inst_tc_wf(#[trigger] inst.children@[j])
}

fn msg_required_missing(f: &str, p: &str) -> (r: String)
    ensures
        r@ == required_missing_msg(f@, p@),
{
    let r = String::from_str("Required parameter is missing for check ").concat(f).concat(
        ": ",
    ).concat(p);
    proof {
        assert(r@ =~= required_missing_msg(f@, p@));
    }
    r
}

fn msg_unexpected_param(p: &str, f: &str) -> (r: String)
    ensures
        r@ == unexpected_param_msg(p@, f@),
{
    let r = String::from_str("Unexpected param \"").concat(p).concat("\" for check: ").concat(f);
    proof {
        assert(r@ =~= unexpected_param_msg(p@, f@));
    }
    r
}

fn msg_invalid_type(f: &str, p: &str, got: &str, expected: &str) -> (r: String)
    ensures
        r@ == invalid_type_msg(f@, p@, got@, expected@),
{
    let r = String::from_str("Invalid parameter type for check ").concat(f).concat(
        " param '",
    ).concat(p).concat("'. Got type ").concat(got).concat(", but expected type ").concat(expected);
    proof {
        assert(r@ =~= invalid_type_msg(f@, p@, got@, expected@));
    }
    r
}

/// Type-checks one instance tree against its materialized schemas,
/// accumulating diagnostics without ever halting the walk: missing required
/// parameters first (sorted by name for deterministic output), then
/// unexpected parameters, then type mismatches, then the children in order.
pub fn typecheck_check_params<'a>(cfo: &mut CompiledCheckFileOut<'a>, inst: &ChkInstance<'a>)
    requires
        inst_tc_wf(*inst),
    ensures
        final(cfo).filename == old(cfo).filename,
        final(cfo).next_id == old(cfo).next_id,
        final(cfo).instances == old(cfo).instances,
        diags_view(final(cfo).errors@) == diags_view(old(cfo).errors@) + tree_diags(
            opt_view(old(cfo).filename),
            *inst,
        ),
    decreases *inst,
{
    let ghost fname = opt_view(old(cfo).filename);
    let m = match &inst.materialized_formal_params {
        Some(m) => m,
        None => vstd::pervasive::unreached(),
    };

    // Missing required parameters, reported in sorted order so the same
    // diagnostics appear in the same order on every run.
    let mut not_found: Vec<String> = Vec::new();
    let mn = m.len();
    let mut i: usize = 0;
    proof {
        reveal(Seq::filter);
        assert(m@.take(0) =~= Seq::<(Seq<char>, ChkFormalParam)>::empty());
    }
    while i < mn
        invariant
            i <= mn,
            mn == m@.len(),
            inst_tc_wf(*inst),
            m == inst.materialized_formal_params->0,
            crate::strutil::views_of_strings(not_found@) == m@.take(i as int).filter(
                missing_pred(*inst),
            ).map_values(formal_entry_name()),
        decreases mn - i,
    {
        let ghost pred = missing_pred(*inst);
        let ghost pre_nf = not_found@;
        let entry = m.entry_at(i);
        if entry.1.required && !inst.actual_params.contains_key(entry.1.name.as_str()) {
            not_found.push(entry.1.name.clone());
        }
        proof {
            reveal(Seq::filter);
            let t = m@.take(i as int + 1);
            assert(t.len() == i + 1);
            assert(t.drop_last() =~= m@.take(i as int));
            assert(t.last() == m@[i as int]);
            assert(pred(m@[i as int]) == (m@[i as int].1.required
                && !crate::strmap::entries_contain_key(
                inst.actual_params@,
                m@[i as int].1.name@,
            )));
            assert(formal_entry_name()(m@[i as int]) == m@[i as int].1.name@);
            if pred(m@[i as int]) {
                assert(t.filter(pred) == m@.take(i as int).filter(pred).push(m@[i as int]));
                assert(not_found@ == pre_nf.push(m@[i as int].1.name));
                assert(crate::strutil::views_of_strings(not_found@) =~= crate::strutil::views_of_strings(
                    pre_nf,
                ).push(m@[i as int].1.name@));
                assert(t.filter(pred).map_values(formal_entry_name()) =~= m@.take(
                    i as int,
                ).filter(pred).map_values(formal_entry_name()).push(m@[i as int].1.name@));
            } else {
                assert(t.filter(pred) == m@.take(i as int).filter(pred));
            }
            assert(crate::strutil::views_of_strings(not_found@) =~= t.filter(pred).map_values(
                formal_entry_name(),
            ));
        }
        i = i + 1;
    }
    proof {
        assert(m@.take(mn as int) =~= m@);
    }
    crate::strutil::sort_strings(&mut not_found);
    proof {
        crate::strutil::lemma_str_le_total_ordering();
        let unsorted = m@.filter(missing_pred(*inst)).map_values(formal_entry_name());
        unsorted.lemma_sort_by_ensures(crate::strutil::str_leq());
        vstd::seq_lib::lemma_sorted_unique(
            crate::strutil::views_of_strings(not_found@),
            unsorted.sort_by(crate::strutil::str_leq()),
            crate::strutil::str_leq(),
        );
        assert(crate::strutil::views_of_strings(not_found@) == missing_required_names(*inst));
    }
    let nf_len = not_found.len();
    let mut k: usize = 0;
    while k < nf_len
        invariant
            k <= nf_len,
            nf_len == not_found@.len(),
            crate::strutil::views_of_strings(not_found@) == missing_required_names(*inst),
            inst_tc_wf(*inst),
            fname == opt_view(old(cfo).filename),
            cfo.filename == old(cfo).filename,
            cfo.next_id == old(cfo).next_id,
            cfo.instances == old(cfo).instances,
            diags_view(cfo.errors@) == diags_view(old(cfo).errors@) + missing_diags(
                opt_view(old(cfo).filename),
                *inst,
            ).take(k as int),
        decreases nf_len - k,
    {
        let msg = msg_required_missing(inst.fn_def.name.as_str(), not_found[k].as_str());
        let fname_c = duplicate_filename(&cfo.filename);
        let ghost pre_errors = cfo.errors@;
        cfo.add_error(fname_c, inst.content_address, msg);
        proof {
            assert(diags_view(cfo.errors@) =~= diags_view(pre_errors).push(
                diag_view(cfo.errors@.last()),
            ));
            assert(crate::strutil::views_of_strings(not_found@)[k as int] == not_found@[k as int]@);
            assert(missing_required_names(*inst)[k as int] == not_found@[k as int]@);
            assert(missing_diags(fname, *inst)[k as int] == missing_diag_of(fname, *inst)(
                missing_required_names(*inst)[k as int],
            ));
            assert(diag_view(cfo.errors@.last()).msg == required_missing_msg(
                inst.fn_def.name@,
                not_found@[k as int]@,
            ));
            assert(diag_view(cfo.errors@.last()).filename == fname);
            assert(diag_view(cfo.errors@.last()).addr == inst.content_address);
            assert(!diag_view(cfo.errors@.last()).warning);
            assert(missing_diags(fname, *inst)[k as int] == diag_view(cfo.errors@.last()));
            assert(missing_diags(fname, *inst).take(k as int + 1) =~= missing_diags(
                fname,
                *inst,
            ).take(k as int).push(missing_diags(fname, *inst)[k as int]));
            assert(diags_view(cfo.errors@) =~= diags_view(old(cfo).errors@) + missing_diags(
                fname,
                *inst,
            ).take(k as int + 1));
        }
        k = k + 1;
    }
    proof {
        assert(missing_diags(fname, *inst).take(nf_len as int) =~= missing_diags(fname, *inst));
    }

    // Unexpected parameters: every actual whose name no formal declares.
    let ghost base1 = diags_view(old(cfo).errors@) + missing_diags(fname, *inst);
    let an = inst.actual_params.len();
    let mut u: usize = 0;
    proof {
        reveal(Seq::filter);
        assert(inst.actual_params@.take(0) =~= Seq::<
            (Seq<char>, crate::params::ChkActualParam),
        >::empty());
        assert(unexpected_diags(fname, *inst).take(0) =~= Seq::<DiagV>::empty());
    }
    while u < an
        invariant
            u <= an,
            an == inst.actual_params@.len(),
            inst_tc_wf(*inst),
            m == inst.materialized_formal_params->0,
            base1 == diags_view(old(cfo).errors@) + missing_diags(
                opt_view(old(cfo).filename),
                *inst,
            ),
            fname == opt_view(old(cfo).filename),
            cfo.filename == old(cfo).filename,
            cfo.next_id == old(cfo).next_id,
            cfo.instances == old(cfo).instances,
            diags_view(cfo.errors@) == base1 + inst.actual_params@.take(u as int).filter(
                unexpected_pred(*inst),
            ).map_values(unexpected_diag_of(opt_view(old(cfo).filename), *inst)),
        decreases an - u,
    {
        let ghost pred = unexpected_pred(*inst);
        let entry = inst.actual_params.entry_at(u);
        if !m.contains_key(entry.0.as_str()) {
            let msg = msg_unexpected_param(entry.0.as_str(), inst.fn_def.name.as_str());
            let fname_c = duplicate_filename(&cfo.filename);
            let ghost pre_errors = cfo.errors@;
            cfo.add_error(fname_c, inst.content_address, msg);
            proof {
                assert(diags_view(cfo.errors@) =~= diags_view(pre_errors).push(
                    diag_view(cfo.errors@.last()),
                ));
            }
        }
        proof {
            reveal(Seq::filter);
            let t = inst.actual_params@.take(u as int + 1);
            assert(t.drop_last() =~= inst.actual_params@.take(u as int));
            assert(t.last() == inst.actual_params@[u as int]);
            assert(diags_view(cfo.errors@) =~= base1 + t.filter(pred).map_values(
                unexpected_diag_of(fname, *inst),
            ));
        }
        u = u + 1;
    }
    proof {
        assert(inst.actual_params@.take(an as int) =~= inst.actual_params@);
        assert(diags_view(cfo.errors@) =~= base1 + unexpected_diags(fname, *inst));
    }

    // Type mismatches: for each formal with an actual bound, a `Path`
    // formal accepts `Path` or `String`, every other formal only its exact
    // tag.
    let ghost base2 = base1 + unexpected_diags(fname, *inst);
    let mut w: usize = 0;
    proof {
        reveal(Seq::filter);
        assert(m@.take(0) =~= Seq::<(Seq<char>, ChkFormalParam)>::empty());
    }
    while w < mn
        invariant
            w <= mn,
            mn == m@.len(),
            inst_tc_wf(*inst),
            m == inst.materialized_formal_params->0,
            base2 == diags_view(old(cfo).errors@) + missing_diags(
                opt_view(old(cfo).filename),
                *inst,
            ) + unexpected_diags(opt_view(old(cfo).filename), *inst),
            fname == opt_view(old(cfo).filename),
            cfo.filename == old(cfo).filename,
            cfo.next_id == old(cfo).next_id,
            cfo.instances == old(cfo).instances,
            diags_view(cfo.errors@) == base2 + m@.take(w as int).filter(
                type_err_pred(*inst),
            ).map_values(type_err_diag_of(opt_view(old(cfo).filename), *inst)),
        decreases mn - w,
    {
        let ghost pred = type_err_pred(*inst);
        let entry = m.entry_at(w);
        match inst.actual_params.get(entry.0.as_str()) {
            Some(actual_param) => {
                let path_formal = match entry.1.param_type {
                    ChkParamType::PkPath => true,
                    _ => false,
                };
                if path_formal {
                    if !actual_param.is_coercible_to_path() {
                        let got = actual_param.type_label();
                        let msg = msg_invalid_type(
                            inst.fn_def.name.as_str(),
                            entry.0.as_str(),
                            got.as_str(),
                            "String or Path",
                        );
                        let fname_c = duplicate_filename(&cfo.filename);
                        let ghost pre_errors = cfo.errors@;
                        cfo.add_error(fname_c, actual_param.content_address, msg);
                        proof {
                            assert(diags_view(cfo.errors@) =~= diags_view(pre_errors).push(
                                diag_view(cfo.errors@.last()),
                            ));
                        }
                    }
                } else {
                    if !actual_param.is_type(&entry.1.param_type) {
                        let got = actual_param.type_label();
                        let expected = entry.1.param_type.type_label();
                        let msg = msg_invalid_type(
                            inst.fn_def.name.as_str(),
                            entry.0.as_str(),
                            got.as_str(),
                            expected,
                        );
                        let fname_c = duplicate_filename(&cfo.filename);
                        let ghost pre_errors = cfo.errors@;
                        cfo.add_error(fname_c, actual_param.content_address, msg);
                        proof {
                            assert(diags_view(cfo.errors@) =~= diags_view(pre_errors).push(
                                diag_view(cfo.errors@.last()),
                            ));
                        }
                    }
                }
            },
            None => {},
        }
        proof {
            reveal(Seq::filter);
            let t = m@.take(w as int + 1);
            assert(t.drop_last() =~= m@.take(w as int));
            assert(t.last() == m@[w as int]);
            assert(diags_view(cfo.errors@) =~= base2 + t.filter(pred).map_values(
                type_err_diag_of(fname, *inst),
            ));
        }
        w = w + 1;
    }
    proof {
        assert(m@.take(mn as int) =~= m@);
        assert(diags_view(cfo.errors@) =~= diags_view(old(cfo).errors@) + node_diags(
            fname,
            *inst,
        ));
    }

    // Children, in declaration order.
    let ghost base3 = diags_view(old(cfo).errors@) + node_diags(fname, *inst);
    let cn = inst.children.len();
    let mut c: usize = 0;
    proof {
        assert(inst.children@.take(0) =~= Seq::<ChkInstance>::empty());
    }
    while c < cn
        invariant
            c <= cn,
            cn == inst.children@.len(),
            inst_tc_wf(*inst),
            base3 == diags_view(old(cfo).errors@) + node_diags(opt_view(old(cfo).filename), *inst),
            fname == opt_view(old(cfo).filename),
            cfo.filename == old(cfo).filename,
            cfo.next_id == old(cfo).next_id,
            cfo.instances == old(cfo).instances,
            diags_view(cfo.errors@) == base3 + forest_diags(
                opt_view(old(cfo).filename),
                inst.children@.take(c as int),
            ),
        decreases cn - c,
    {
        let ghost cc = c as int;
        proof {
            assert(decreases_to!(*inst => inst.children));
            assert(decreases_to!(inst.children => inst.children[cc]));
            assert(inst_tc_wf(inst.children@[cc]));
        }
        typecheck_check_params(cfo, &inst.children[c]);
        proof {
            lemma_forest_diags_take_step(fname, inst.children@, cc);
        }
        c = c + 1;
    }
    proof {
        assert(inst.children@.take(cn as int) =~= inst.children@);
        assert(diags_view(cfo.errors@) =~= diags_view(old(cfo).errors@) + tree_diags(
            fname,
            *inst,
        ));
    }
}

/// Every parameter map in a raw tree is well-formed (unique keys).
pub open spec fn ast_node_wf(node: AstCheckDef) -> bool
    decreases node,
{
    &&& node.actual_params.wf()
    &&& forall|j: int| 0 <= j < node.children@.len() ==> ast_node_wf(#[trigger] node.children@[j])
}

/// Whether every root of a file resolves.
pub open spec fn forest_resolvable(reg: ChkDefRegistry, s: Seq<AstCheckDef>) -> bool {
    forall|l: int| 0 <= l < s.len() ==> resolvable(reg, #[trigger] s[l])
}

/// An instance built from a well-formed raw tree is ready for type-checking.
proof fn lemma_matches_gives_tc_wf(reg: ChkDefRegistry, node: AstCheckDef, inst: ChkInstance)
    requires
        instance_matches_ast(reg, node, inst),
        ast_node_wf(node),
    ensures
        inst_tc_wf(inst),
    decreases node,
{
    assert forall|j: int| 0 <= j < inst.children@.len() implies inst_tc_wf(
        #[trigger] inst.children@[j],
    ) by {
        lemma_matches_gives_tc_wf(reg, node.children@[j], inst.children@[j]);
    }
}

/// Compiles each file's raw trees: resolve and materialize every root (the
/// walk continues across failing roots so a file reports all its unresolved
/// names), then — only if every root resolved — type-check the whole file
/// and keep its instances. A file with a failed root keeps its diagnostics
/// and an empty instance list.
pub fn compile_checks_to_asts<'chkdef>(
    fns: &'chkdef ChkDefRegistry,
    all_ast_file_checks: Vec<AstFileChecks>,
) -> (r: Vec<CompiledCheckFileOut<'chkdef>>)
    requires
        fns.wf(),
        defs_wf(*fns),
        forall|f: int|
            0 <= f < all_ast_file_checks@.len() ==> crate::FIRST_INSTANCE_ID + ast_forest_size(
                (#[trigger] all_ast_file_checks@[f]).check_defs@,
            ) <= usize::MAX,
        forall|f: int, l: int|
            0 <= f < all_ast_file_checks@.len() && 0 <= l
                < all_ast_file_checks@[f].check_defs@.len() ==> ast_node_wf(
                #[trigger] all_ast_file_checks@[f].check_defs@[l],
            ),
    ensures
        r@.len() == all_ast_file_checks@.len(),
        forall|f: int|
            #![trigger r@[f]]
            0 <= f < r@.len() ==> {
                let cfo = r@[f];
                let file = all_ast_file_checks@[f];
                &&& cfo.filename == file.filename
                &&& (forest_resolvable(*fns, file.check_defs@) ==> {
                    &&& cfo.instances@.len() == file.check_defs@.len()
                    &&& forall|l: int|
                        0 <= l < file.check_defs@.len() ==> instance_matches_ast(
                            *fns,
                            #[trigger] file.check_defs@[l],
                            cfo.instances@[l],
                        )
                    &&& forest_ids(cfo.instances@) == id_run(
                        crate::FIRST_INSTANCE_ID as int,
                        ast_forest_size(file.check_defs@) as int,
                    )
                    &&& diags_view(cfo.errors@) == forest_diags(
                        opt_view(file.filename),
                        cfo.instances@,
                    )
                })
                &&& (!forest_resolvable(*fns, file.check_defs@) ==> {
                    &&& cfo.instances@.len() == 0
                    &&& cfo.errors@.len() > 0
                    &&& cfo.errors@.last().message@ == "Child instance failed to compile"@
                })
            },
{
    let mut all_compiled_files: Vec<CompiledCheckFileOut<'chkdef>> = Vec::new();
    let mut rest_files = all_ast_file_checks;
    let ghost g_files = rest_files@;
    proof {
        assert(rest_files@ =~= g_files.skip(0));
    }
    while rest_files.len() > 0
        invariant
            fns.wf(),
            defs_wf(*fns),
            rest_files@ == g_files.skip(g_files.len() - rest_files@.len()),
            all_compiled_files@.len() == g_files.len() - rest_files@.len(),
            forall|f: int|
                0 <= f < g_files.len() ==> crate::FIRST_INSTANCE_ID + ast_forest_size(
                    (#[trigger] g_files[f]).check_defs@,
                ) <= usize::MAX,
            forall|f: int, l: int|
                0 <= f < g_files.len() && 0 <= l < g_files[f].check_defs@.len() ==> ast_node_wf(
                    #[trigger] g_files[f].check_defs@[l],
                ),
            forall|f: int|
                #![trigger all_compiled_files@[f]]
                0 <= f < all_compiled_files@.len() ==> {
                    let cfo = all_compiled_files@[f];
                    let file = g_files[f];
                    &&& cfo.filename == file.filename
                    &&& (forest_resolvable(*fns, file.check_defs@) ==> {
                        &&& cfo.instances@.len() == file.check_defs@.len()
                        &&& forall|l: int|
                            0 <= l < file.check_defs@.len() ==> instance_matches_ast(
                                *fns,
                                #[trigger] file.check_defs@[l],
                                cfo.instances@[l],
                            )
                        &&& forest_ids(cfo.instances@) == id_run(
                            crate::FIRST_INSTANCE_ID as int,
                            ast_forest_size(file.check_defs@) as int,
                        )
                        &&& diags_view(cfo.errors@) == forest_diags(
                            opt_view(file.filename),
                            cfo.instances@,
                        )
                    })
                    &&& (!forest_resolvable(*fns, file.check_defs@) ==> {
                        &&& cfo.instances@.len() == 0
                        &&& cfo.errors@.len() > 0
                        &&& cfo.errors@.last().message@ == "Child instance failed to compile"@
                    })
                },
        decreases rest_files@.len(),
    {
        let ghost fdone = g_files.len() - rest_files@.len();
        proof {
            assert(g_files.skip(fdone as int)[0] == g_files[fdone as int]);
        }
        let file = rest_files.remove(0);
        proof {
            assert(file == g_files[fdone as int]);
            assert(rest_files@ =~= g_files.skip(fdone as int + 1));
        }
        let cfo = compile_one_file(fns, file);
        all_compiled_files.push(cfo);
    }
    proof {
        assert(all_compiled_files@.len() == g_files.len());
    }
    all_compiled_files
}

/// Compiles one file: every root is resolved (and its errors recorded) even
/// when an earlier root failed; instances are kept only when all roots
/// resolved.
fn compile_one_file<'chkdef>(fns: &'chkdef ChkDefRegistry, file: AstFileChecks) -> (cfo:
    CompiledCheckFileOut<'chkdef>)
    requires
        fns.wf(),
        defs_wf(*fns),
        crate::FIRST_INSTANCE_ID + ast_forest_size(file.check_defs@) <= usize::MAX,
        forall|l: int|
            0 <= l < file.check_defs@.len() ==> ast_node_wf(#[trigger] file.check_defs@[l]),
    ensures
        cfo.filename == file.filename,
        forest_resolvable(*fns, file.check_defs@) ==> {
            &&& cfo.instances@.len() == file.check_defs@.len()
            &&& forall|l: int|
                0 <= l < file.check_defs@.len() ==> instance_matches_ast(
                    *fns,
                    #[trigger] file.check_defs@[l],
                    cfo.instances@[l],
                )
            &&& forest_ids(cfo.instances@) == id_run(
                crate::FIRST_INSTANCE_ID as int,
                ast_forest_size(file.check_defs@) as int,
            )
            &&& diags_view(cfo.errors@) == forest_diags(opt_view(file.filename), cfo.instances@)
        },
        !forest_resolvable(*fns, file.check_defs@) ==> {
            &&& cfo.instances@.len() == 0
            &&& cfo.errors@.len() > 0
            &&& cfo.errors@.last().message@ == "Child instance failed to compile"@
        },
{
    let ghost g_defs = file.check_defs@;
    let ghost fname = opt_view(file.filename);
    let mut cfo = CompiledCheckFileOut::new(duplicate_filename(&file.filename));
    let mut maybe_insts: Vec<Option<ChkInstance<'chkdef>>> = Vec::new();
    let mut defs = file.check_defs;
    let mut any_none = false;
    proof {
        assert(defs@ =~= g_defs.skip(0));
        assert(g_defs.take(0) =~= Seq::<AstCheckDef>::empty());
    }
    while defs.len() > 0
        invariant
            fns.wf(),
            defs_wf(*fns),
            defs@ == g_defs.skip(g_defs.len() - defs@.len()),
            maybe_insts@.len() == g_defs.len() - defs@.len(),
            crate::FIRST_INSTANCE_ID + ast_forest_size(g_defs) <= usize::MAX,
            forall|l: int| 0 <= l < g_defs.len() ==> ast_node_wf(#[trigger] g_defs[l]),
            cfo.filename == file.filename,
            cfo.instances@.len() == 0,
            cfo.next_id <= crate::FIRST_INSTANCE_ID + ast_forest_size(
                g_defs.take(g_defs.len() - defs@.len()),
            ),
            forall|l: int|
                0 <= l < maybe_insts@.len() ==> ((#[trigger] maybe_insts@[l]) is Some
                    <==> resolvable(*fns, g_defs[l])),
            any_none <==> exists|l: int| 0 <= l < maybe_insts@.len() && maybe_insts@[l] is None,
            !any_none ==> {
                &&& cfo.errors@.len() == 0
                &&& cfo.next_id == crate::FIRST_INSTANCE_ID + ast_forest_size(
                    g_defs.take(g_defs.len() - defs@.len()),
                )
                &&& forall|l: int|
                    0 <= l < maybe_insts@.len() ==> instance_matches_ast(
                        *fns,
                        g_defs[l],
                        (#[trigger] maybe_insts@[l])->0,
                    )
                &&& forest_ids(unwrap_insts(maybe_insts@)) == id_run(
                    crate::FIRST_INSTANCE_ID as int,
                    ast_forest_size(g_defs.take(g_defs.len() - defs@.len())) as int,
                )
            },
        decreases defs@.len(),
    {
        let ghost done = g_defs.len() - defs@.len();
        proof {
            assert(g_defs.skip(done as int)[0] == g_defs[done as int]);
            lemma_ast_forest_size_take_step(g_defs, done as int);
            lemma_ast_forest_size_split(g_defs, done as int + 1);
        }
        let node = defs.remove(0);
        proof {
            assert(node == g_defs[done as int]);
            assert(defs@ =~= g_defs.skip(done as int + 1));
        }
        let ghost pre_unwrapped = unwrap_insts(maybe_insts@);
        let ghost pre_opts = maybe_insts@;
        let ghost pre_any = any_none;
        let r = make_check_instance(&mut cfo, fns, node);
        if r.is_none() {
            any_none = true;
        }
        maybe_insts.push(r);
        proof {
            assert(any_none <==> exists|l: int|
                0 <= l < maybe_insts@.len() && maybe_insts@[l] is None) by {
                if pre_any {
                    let w = choose|l: int| 0 <= l < pre_opts.len() && pre_opts[l] is None;
                    assert(maybe_insts@[w] is None);
                } else if maybe_insts@[done as int] is None {
                } else {
                    if exists|l: int| 0 <= l < maybe_insts@.len() && maybe_insts@[l] is None {
                        let w = choose|l: int|
                            0 <= l < maybe_insts@.len() && maybe_insts@[l] is None;
                        if w < done {
                            assert(pre_opts[w] is None);
                        }
                    }
                }
            }
            if !any_none {
                assert(unwrap_insts(maybe_insts@) =~= pre_unwrapped.push(maybe_insts@.last()->0));
                lemma_forest_ids_push(pre_unwrapped, maybe_insts@.last()->0);
                assert(forest_ids(unwrap_insts(maybe_insts@)) =~= id_run(
                    crate::FIRST_INSTANCE_ID as int,
                    ast_forest_size(g_defs.take(done as int + 1)) as int,
                ));
            }
        }
    }
    proof {
        assert(g_defs.take(g_defs.len() as int) =~= g_defs);
        if !any_none {
            assert forall|l: int| 0 <= l < g_defs.len() implies resolvable(
                *fns,
                #[trigger] g_defs[l],
            ) by {
                assert(!(maybe_insts@[l] is None));
                assert(maybe_insts@[l] is Some);
            }
            assert(forest_resolvable(*fns, g_defs));
        } else {
            let l = choose|l: int| 0 <= l < maybe_insts@.len() && maybe_insts@[l] is None;
            assert(!resolvable(*fns, g_defs[l]));
            assert(!forest_resolvable(*fns, g_defs));
        }
    }

    if any_none {
        // Bail out: the diagnostics of the failing subtrees are already
        // recorded; the file keeps no instances.
        let fname_c = duplicate_filename(&cfo.filename);
        cfo.add_error(
            fname_c,
            ContentAddress::new(0, 0),
            String::from_str("Child instance failed to compile"),
        );
        return cfo;
    }

    let mut rest = maybe_insts;
    proof {
        assert(rest@ =~= maybe_insts@.skip(0));
        assert(cfo.instances@.take(0) =~= Seq::<ChkInstance>::empty());
        assert(forest_diags(fname, Seq::<ChkInstance>::empty()) =~= Seq::<DiagV>::empty());
        assert(diags_view(cfo.errors@) =~= Seq::<DiagV>::empty());
    }
    let ghost g_opts = rest@;
    while rest.len() > 0
        invariant
            fns.wf(),
            defs_wf(*fns),
            rest@ == g_opts.skip(g_opts.len() - rest@.len()),
            g_opts.len() == g_defs.len(),
            fname == opt_view(file.filename),
            forall|l: int| 0 <= l < g_defs.len() ==> ast_node_wf(#[trigger] g_defs[l]),
            forall|l: int|
                0 <= l < g_opts.len() ==> (#[trigger] g_opts[l]) is Some && resolvable(
                    *fns,
                    g_defs[l],
                ) && instance_matches_ast(*fns, g_defs[l], g_opts[l]->0),
            forest_ids(unwrap_insts(g_opts)) == id_run(
                crate::FIRST_INSTANCE_ID as int,
                ast_forest_size(g_defs) as int,
            ),
            cfo.filename == file.filename,
            cfo.instances@.len() == g_opts.len() - rest@.len(),
            forall|l: int|
                0 <= l < cfo.instances@.len() ==> instance_matches_ast(
                    *fns,
                    g_defs[l],
                    #[trigger] cfo.instances@[l],
                ) && tree_ids(cfo.instances@[l]) == tree_ids(unwrap_insts(g_opts)[l]),
            diags_view(cfo.errors@) == forest_diags(fname, cfo.instances@),
        decreases rest@.len(),
    {
        let ghost done = g_opts.len() - rest@.len();
        proof {
            assert(g_opts.skip(done as int)[0] == g_opts[done as int]);
        }
        let next = rest.remove(0);
        proof {
            assert(next == g_opts[done as int]);
            assert(rest@ =~= g_opts.skip(done as int + 1));
        }
        match next {
            Some(mut i) => {
                proof {
                    lemma_def_lookup_wf(*fns, g_defs[done as int]);
                }
                i.materialize_formal_params();
                proof {
                    assert(instance_matches_ast(*fns, g_defs[done as int], i));
                    lemma_matches_gives_tc_wf(*fns, g_defs[done as int], i);
                    assert(tree_ids(i) == tree_ids(g_opts[done as int]->0));
                }
                typecheck_check_params(&mut cfo, &i);
                let ghost pre_insts = cfo.instances@;
                cfo.add_instance(i);
                proof {
                    lemma_forest_diags_take_step(fname, cfo.instances@, done as int);
                    assert(cfo.instances@.take(done as int) =~= pre_insts);
                    assert(cfo.instances@.take(done as int + 1) =~= cfo.instances@);
                    assert(diags_view(cfo.errors@) =~= forest_diags(fname, cfo.instances@));
                }
            },
            None => {
                proof {
                    assert(g_opts[done as int] is Some);
                }
                vstd::pervasive::unreached::<()>();
            },
        }
    }
    proof {
        assert(cfo.instances@.len() == g_defs.len());
        lemma_forest_ids_pointwise(cfo.instances@, unwrap_insts(g_opts));
    }
    cfo
}

/// Two forests whose trees carry the same ids, position for position, have
/// the same id sequence.
proof fn lemma_forest_ids_pointwise(a: Seq<ChkInstance>, b: Seq<ChkInstance>)
    requires
        a.len() == b.len(),
        forall|l: int| 0 <= l < a.len() ==> tree_ids(#[trigger] a[l]) == tree_ids(b[l]),
    ensures
        forest_ids(a) == forest_ids(b),
    decreases a,
{
    if a.len() > 0 {
        assert forall|l: int|
            0 <= l < a.drop_first().len() implies tree_ids(#[trigger] a.drop_first()[l])
            == tree_ids(b.drop_first()[l]) by {
            assert(a.drop_first()[l] == a[l + 1]);
            assert(b.drop_first()[l] == b[l + 1]);
        }
        lemma_forest_ids_pointwise(a.drop_first(), b.drop_first());
        assert(tree_ids(a.first()) == tree_ids(b.first()));
    }
}

/// The instances inside a sequence of compilation results that are all
/// successes.
pub open spec fn unwrap_insts(s: Seq<Option<ChkInstance>>) -> Seq<ChkInstance> {
    s.map_values(|o: Option<ChkInstance>| o->0)
}

/// Whether one user-exposed tool parameter's little map is structurally
/// sound: only the keys `type` and `required`, a `type` naming a type, a
/// boolean `required`.
pub open spec fn param_map_valid(m: crate::ast::AstActualParams) -> bool {
    &&& forall|j: int| 0 <= j < m@.len() ==> ((#[trigger] m@[j]).0 == "type"@ || m@[j].0 == "required"@)
    &&& m.contains_key_spec("type"@) && crate::strmap::entries_value_of(m@, "type"@).value is PkTypeName
    &&& m.contains_key_spec("required"@) && crate::strmap::entries_value_of(
        m@,
        "required"@,
    ).value is PkBool
}

/// Whether a whole tool declaration validates cleanly.
pub open spec fn tool_valid(t: crate::ast::AstToolDef) -> bool {
    forall|j: int|
        0 <= j < t.params.instance_params@.len() ==> param_map_valid(
            (#[trigger] t.params.instance_params@[j]).1,
        )
}

/// Whether every tool declaration in a batch of files validates cleanly.
pub open spec fn tools_batch_valid(files: Seq<AstFileTools>) -> bool {
    forall|f: int, j: int|
        0 <= f < files.len() && 0 <= j < files[f].tool_defs@.len() ==> tool_valid(
            #[trigger] files[f].tool_defs@[j],
        )
}

/// The parameter maps of a batch of tool files are well-formed.
pub open spec fn tools_batch_wf(files: Seq<AstFileTools>) -> bool {
    forall|f: int, j: int|
        #![trigger files[f].tool_defs@[j]]
        0 <= f < files.len() && 0 <= j < files[f].tool_defs@.len() ==> {
            let t = files[f].tool_defs@[j];
            t.params.instance_params.wf() && (forall|e: int|
                0 <= e < t.params.instance_params@.len() ==> (
                #[trigger] t.params.instance_params@[e]).1.wf())
        }
}

/// The keys of a tool-parameter map that are neither `type` nor `required`.
pub open spec fn unknown_key_pred() -> spec_fn((Seq<char>, crate::params::ChkActualParam)) -> bool {
    |e: (Seq<char>, crate::params::ChkActualParam)| e.0 != "type"@ && e.0 != "required"@
}

/// Projects a parameter entry to its key.
pub open spec fn entry_key_of() -> spec_fn((Seq<char>, crate::params::ChkActualParam)) -> Seq<
    char,
> {
    |e: (Seq<char>, crate::params::ChkActualParam)| e.0
}

/// The unknown keys of one tool-parameter map, in entry order.
pub open spec fn unknown_keys_of(m: crate::ast::AstActualParams) -> Seq<Seq<char>> {
    m@.filter(unknown_key_pred()).map_values(entry_key_of())
}

/// A list of keys as its diagnostic prints it: quoted, comma-separated.
pub open spec fn quoted_key_list(keys: Seq<Seq<char>>) -> Seq<char>
    decreases keys.len(),
{
    if keys.len() == 0 {
        Seq::empty()
    } else if keys.len() == 1 {
        seq!['"'] + keys[0] + seq!['"']
    } else {
        quoted_key_list(keys.drop_last()) + ", "@ + seq!['"'] + keys.last() + seq!['"']
    }
}

pub open spec fn unknown_keys_msg(keys: Seq<Seq<char>>) -> Seq<char> {
    "Unknown keys found in tool instance params: ["@ + quoted_key_list(keys) + "]"@
}

pub open spec fn invalid_tool_type_msg(got: Seq<char>) -> Seq<char> {
    "Invalid type "@ + got + " for param 'type', should be a type name (String, Int, Bool)"@
}

pub open spec fn invalid_tool_required_msg(got: Seq<char>) -> Seq<char> {
    "Invalid type "@ + got + " for param 'required', should be a bool"@
}

/// The diagnostics validating one user-exposed tool parameter yields, in
/// emission order: the unknown keys (if any), then the `type` problem, then
/// the `required` problem.
pub open spec fn tool_entry_diags(
    fname: Option<Seq<char>>,
    addr: ContentAddress,
    e: (Seq<char>, crate::ast::AstActualParams),
) -> Seq<DiagV> {
    let m = e.1;
    (if unknown_keys_of(m).len() > 0 {
        seq![
            DiagV {
                filename: fname,
                addr,
                msg: unknown_keys_msg(unknown_keys_of(m)),
                warning: false,
            },
        ]
    } else {
        Seq::empty()
    }) + (if m.contains_key_spec("type"@) {
        if crate::strmap::entries_value_of(m@, "type"@).value is PkTypeName {
            Seq::empty()
        } else {
            seq![
                DiagV {
                    filename: fname,
                    addr: crate::strmap::entries_value_of(m@, "type"@).content_address,
                    msg: invalid_tool_type_msg(
                        crate::params::value_type_name(
                            crate::strmap::entries_value_of(m@, "type"@).value,
                        ),
                    ),
                    warning: false,
                },
            ]
        }
    } else {
        seq![
            DiagV {
                filename: fname,
                addr,
                msg: "Missing tool parameter 'type'"@,
                warning: false,
            },
        ]
    }) + (if m.contains_key_spec("required"@) {
        if crate::strmap::entries_value_of(m@, "required"@).value is PkBool {
            Seq::empty()
        } else {
            seq![
                DiagV {
                    filename: fname,
                    addr: crate::strmap::entries_value_of(m@, "required"@).content_address,
                    msg: invalid_tool_required_msg(
                        crate::params::value_type_name(
                            crate::strmap::entries_value_of(m@, "required"@).value,
                        ),
                    ),
                    warning: false,
                },
            ]
        }
    } else {
        seq![
            DiagV {
                filename: fname,
                addr,
                msg: "Missing tool parameter 'required'"@,
                warning: false,
            },
        ]
    })
}

/// The diagnostics of a tool's parameters, entry after entry.
pub open spec fn tool_entries_diags(
    fname: Option<Seq<char>>,
    addr: ContentAddress,
    s: Seq<(Seq<char>, crate::ast::AstActualParams)>,
) -> Seq<DiagV>
    decreases s,
{
    if s.len() == 0 {
        Seq::empty()
    } else {
        tool_entry_diags(fname, addr, s.first()) + tool_entries_diags(fname, addr, s.drop_first())
    }
}

proof fn lemma_tool_entries_diags_take_step(
    fname: Option<Seq<char>>,
    addr: ContentAddress,
    s: Seq<(Seq<char>, crate::ast::AstActualParams)>,
    j: int,
)
    requires
        0 <= j < s.len(),
    ensures
        tool_entries_diags(fname, addr, s.take(j + 1)) == tool_entries_diags(fname, addr, s.take(j))
            + tool_entry_diags(fname, addr, s[j]),
    decreases j,
{
    if j == 0 {
        assert(s.take(0) =~= Seq::<(Seq<char>, crate::ast::AstActualParams)>::empty());
        assert(s.take(1).first() == s[0]);
        assert(s.take(1).drop_first() =~= Seq::<(Seq<char>, crate::ast::AstActualParams)>::empty());
        assert(tool_entries_diags(fname, addr, s.take(1)) =~= tool_entries_diags(
            fname,
            addr,
            s.take(0),
        ) + tool_entry_diags(fname, addr, s[0]));
    } else {
        let t = s.drop_first();
        lemma_tool_entries_diags_take_step(fname, addr, t, j - 1);
        assert(s.take(j + 1).first() == s.first());
        assert(s.take(j + 1).drop_first() =~= t.take(j));
        assert(s.take(j).first() == s.first());
        assert(s.take(j).drop_first() =~= t.take(j - 1));
        assert(t[j - 1] == s[j]);
        assert(tool_entries_diags(fname, addr, s.take(j + 1)) =~= tool_entries_diags(
            fname,
            addr,
            s.take(j),
        ) + tool_entry_diags(fname, addr, s[j]));
    }
}

/// The diagnostics of all tools of one file, in order.
pub open spec fn file_tools_diags(fname: Option<Seq<char>>, ts: Seq<crate::ast::AstToolDef>) -> Seq<DiagV>
    decreases ts,
{
    if ts.len() == 0 {
        Seq::empty()
    } else {
        tool_entries_diags(fname, ts.first().content_address, ts.first().params.instance_params@)
            + file_tools_diags(fname, ts.drop_first())
    }
}

proof fn lemma_file_tools_diags_take_step(fname: Option<Seq<char>>, ts: Seq<crate::ast::AstToolDef>, j: int)
    requires
        0 <= j < ts.len(),
    ensures
        file_tools_diags(fname, ts.take(j + 1)) == file_tools_diags(fname, ts.take(j))
            + tool_entries_diags(fname, ts[j].content_address, ts[j].params.instance_params@),
    decreases j,
{
    if j == 0 {
        assert(ts.take(0) =~= Seq::<crate::ast::AstToolDef>::empty());
        assert(ts.take(1).first() == ts[0]);
        assert(ts.take(1).drop_first() =~= Seq::<crate::ast::AstToolDef>::empty());
        assert(file_tools_diags(fname, ts.take(1)) =~= file_tools_diags(fname, ts.take(0))
            + tool_entries_diags(fname, ts[0].content_address, ts[0].params.instance_params@));
    } else {
        let t = ts.drop_first();
        lemma_file_tools_diags_take_step(fname, t, j - 1);
        assert(ts.take(j + 1).first() == ts.first());
        assert(ts.take(j + 1).drop_first() =~= t.take(j));
        assert(ts.take(j).first() == ts.first());
        assert(ts.take(j).drop_first() =~= t.take(j - 1));
        assert(t[j - 1] == ts[j]);
        assert(file_tools_diags(fname, ts.take(j + 1)) =~= file_tools_diags(fname, ts.take(j))
            + tool_entries_diags(fname, ts[j].content_address, ts[j].params.instance_params@));
    }
}

/// The diagnostics of a whole batch of tool files, each under its own file
/// name.
pub open spec fn batch_tools_diags(files: Seq<AstFileTools>) -> Seq<DiagV>
    decreases files,
{
    if files.len() == 0 {
        Seq::empty()
    } else {
        file_tools_diags(opt_view(files.first().filename), files.first().tool_defs@)
            + batch_tools_diags(files.drop_first())
    }
}

proof fn lemma_batch_tools_diags_take_step(files: Seq<AstFileTools>, j: int)
    requires
        0 <= j < files.len(),
    ensures
        batch_tools_diags(files.take(j + 1)) == batch_tools_diags(files.take(j)) + file_tools_diags(
            opt_view(files[j].filename),
            files[j].tool_defs@,
        ),
    decreases j,
{
    if j == 0 {
        assert(files.take(0) =~= Seq::<AstFileTools>::empty());
        assert(files.take(1).first() == files[0]);
        assert(files.take(1).drop_first() =~= Seq::<AstFileTools>::empty());
        assert(batch_tools_diags(files.take(1)) =~= batch_tools_diags(files.take(0))
            + file_tools_diags(opt_view(files[0].filename), files[0].tool_defs@));
    } else {
        let t = files.drop_first();
        lemma_batch_tools_diags_take_step(t, j - 1);
        assert(files.take(j + 1).first() == files.first());
        assert(files.take(j + 1).drop_first() =~= t.take(j));
        assert(files.take(j).first() == files.first());
        assert(files.take(j).drop_first() =~= t.take(j - 1));
        assert(t[j - 1] == files[j]);
        assert(batch_tools_diags(files.take(j + 1)) =~= batch_tools_diags(files.take(j))
            + file_tools_diags(opt_view(files[j].filename), files[j].tool_defs@));
    }
}

/// Selects the structurally usable tool parameters: `type` names a type and
/// `required` is a boolean (unknown extra keys block registration but not
/// this selection).
pub open spec fn prop_valid_pred() -> spec_fn((Seq<char>, crate::ast::AstActualParams)) -> bool {
    |e: (Seq<char>, crate::ast::AstActualParams)|
        e.1.contains_key_spec("type"@) && crate::strmap::entries_value_of(
            e.1@,
            "type"@,
        ).value is PkTypeName && e.1.contains_key_spec("required"@) && crate::strmap::entries_value_of(
            e.1@,
            "required"@,
        ).value is PkBool
}

/// The structurally usable parameter entries of a tool declaration.
#[verifier::opaque]
pub open spec fn valid_tool_entries(t: crate::ast::AstToolDef) -> Seq<
    (Seq<char>, crate::ast::AstActualParams),
> {
    t.params.instance_params@.filter(prop_valid_pred())
}

/// What one validated tool parameter contributes as a formal parameter.
pub open spec fn formal_matches_entry(
    fp: ChkFormalParam,
    e: (Seq<char>, crate::ast::AstActualParams),
) -> bool {
    &&& fp.name@ == e.0
    &&& fp.required == crate::strmap::entries_value_of(e.1@, "required"@).value->PkBool_0
    &&& fp.param_type == crate::data::param_type_of_named(
        crate::strmap::entries_value_of(e.1@, "type"@).value->PkTypeName_0,
    )
    &&& fp.param_default is None
}

/// Renders the unknown keys of a tool parameter for its diagnostic, in the
/// bracketed, quoted form a key list prints as.
fn fmt_key_list(keys: &Vec<String>) -> (r: String)
    ensures
        r@ == seq!['['] + quoted_key_list(crate::strutil::views_of_strings(keys@)) + seq![']'],
{
    proof {
        reveal_strlit("[");
        reveal_strlit("]");
        reveal_strlit("\"");
        reveal_strlit(", ");
    }
    let mut out = String::from_str("[");
    let n = keys.len();
    let mut i: usize = 0;
    while i < n
        invariant
            i <= n,
            n == keys@.len(),
            out@ == seq!['['] + quoted_key_list(
                crate::strutil::views_of_strings(keys@).take(i as int),
            ),
        decreases n - i,
    {
        proof {
            reveal_strlit("\"");
            reveal_strlit(", ");
        }
        if i > 0 {
            out = out.concat(", ");
        }
        out = out.concat("\"").concat(keys[i].as_str()).concat("\"");
        proof {
            let kv = crate::strutil::views_of_strings(keys@);
            assert(kv.take(i as int + 1).drop_last() =~= kv.take(i as int));
            assert(kv.take(i as int + 1).last() == kv[i as int]);
            if i == 0 {
                assert(quoted_key_list(kv.take(1)) =~= seq!['"'] + kv[0] + seq!['"']);
            }
            assert(out@ =~= seq!['['] + quoted_key_list(kv.take(i as int + 1)));
        }
        i = i + 1;
    }
    proof {
        assert(crate::strutil::views_of_strings(keys@).take(n as int)
            =~= crate::strutil::views_of_strings(keys@));
    }
    let r = out.concat("]");
    proof {
        assert(r@ =~= seq!['['] + quoted_key_list(crate::strutil::views_of_strings(keys@))
            + seq![']']);
    }
    r
}

/// Validates the instance parameters of one tool; pushes a diagnostic for
/// every structural problem found and returns the formal parameters of the
/// ones that validated. Pushes no diagnostic exactly when the whole tool is
/// clean.
#[verifier::rlimit(100)]
fn validate_tool_params(
    tool_def: &crate::ast::AstToolDef,
    filename: &Option<String>,
    compile_errors: &mut Vec<CompileError>,
) -> (params: Vec<ChkFormalParam>)
    requires
        tool_def.params.instance_params.wf(),
        forall|e: int|
            0 <= e < tool_def.params.instance_params@.len() ==> (
            #[trigger] tool_def.params.instance_params@[e]).1.wf(),
    ensures
        old(compile_errors)@.is_prefix_of(final(compile_errors)@),
        diags_view(final(compile_errors)@) == diags_view(old(compile_errors)@)
            + tool_entries_diags(
            opt_view(*filename),
            tool_def.content_address,
            tool_def.params.instance_params@,
        ),
        final(compile_errors)@.len() == old(compile_errors)@.len() <==> tool_valid(*tool_def),
        params@.len() == valid_tool_entries(*tool_def).len(),
        forall|x: int|
            0 <= x < params@.len() ==> formal_matches_entry(
                #[trigger] params@[x],
                valid_tool_entries(*tool_def)[x],
            ),
{
    proof {
        reveal(valid_tool_entries);
    }
    let ghost fname = opt_view(*filename);
    let ghost addr = tool_def.content_address;
    let ghost entries = tool_def.params.instance_params@;
    let mut instance_params: Vec<ChkFormalParam> = Vec::new();
    let ipn = tool_def.params.instance_params.len();
    let mut e: usize = 0;
    proof {
        reveal(Seq::filter);
        assert(entries.take(0) =~= Seq::<(Seq<char>, crate::ast::AstActualParams)>::empty());
    }
    while e < ipn
        invariant
            e <= ipn,
            ipn == entries.len(),
            entries == tool_def.params.instance_params@,
            fname == opt_view(*filename),
            addr == tool_def.content_address,
            tool_def.params.instance_params.wf(),
            forall|l: int|
                0 <= l < entries.len() ==> (#[trigger] entries[l]).1.wf(),
            old(compile_errors)@.is_prefix_of(compile_errors@),
            diags_view(compile_errors@) == diags_view(old(compile_errors)@) + tool_entries_diags(
                fname,
                addr,
                entries.take(e as int),
            ),
            compile_errors@.len() == old(compile_errors)@.len() <==> (forall|l: int|
                0 <= l < e ==> param_map_valid((#[trigger] entries[l]).1)),
            instance_params@.len() == entries.take(e as int).filter(prop_valid_pred()).len(),
            forall|x: int|
                0 <= x < instance_params@.len() ==> formal_matches_entry(
                    #[trigger] instance_params@[x],
                    entries.take(e as int).filter(prop_valid_pred())[x],
                ),
        decreases ipn - e,
    {
        let ghost pre_len = compile_errors@.len();
        let ghost pre_iter = compile_errors@;
        let ghost d0 = diags_view(compile_errors@);
        let entry = tool_def.params.instance_params.entry_at(e);
        let map = &entry.1;
        let ghost im = entries[e as int].1;
        // Collect keys that are neither `type` nor `required`.
        let mut unknown_keys: Vec<String> = Vec::new();
        let kn = map.len();
        let mut k: usize = 0;
        proof {
            reveal(Seq::filter);
            assert(im@.take(0) =~= Seq::<(Seq<char>, crate::params::ChkActualParam)>::empty());
        }
        while k < kn
            invariant
                k <= kn,
                kn == im@.len(),
                *map == im,
                crate::strutil::views_of_strings(unknown_keys@) == im@.take(k as int).filter(
                    unknown_key_pred(),
                ).map_values(entry_key_of()),
            decreases kn - k,
        {
            let ghost pre_uk = unknown_keys@;
            let key_entry = map.entry_at(k);
            if !crate::strmap::str_eq(key_entry.0.as_str(), "type") && !crate::strmap::str_eq(
                key_entry.0.as_str(),
                "required",
            ) {
                unknown_keys.push(key_entry.0.clone());
            }
            proof {
                reveal(Seq::filter);
                let t = im@.take(k as int + 1);
                assert(t.drop_last() =~= im@.take(k as int));
                assert(t.last() == im@[k as int]);
                assert(unknown_key_pred()(im@[k as int]) == (im@[k as int].0 != "type"@
                    && im@[k as int].0 != "required"@));
                if unknown_key_pred()(im@[k as int]) {
                    assert(crate::strutil::views_of_strings(unknown_keys@)
                        =~= crate::strutil::views_of_strings(pre_uk).push(im@[k as int].0));
                }
                assert(crate::strutil::views_of_strings(unknown_keys@) =~= t.filter(
                    unknown_key_pred(),
                ).map_values(entry_key_of()));
            }
            k = k + 1;
        }
        proof {
            assert(im@.take(kn as int) =~= im@);
            assert(crate::strutil::views_of_strings(unknown_keys@) == unknown_keys_of(im));
        }
        if unknown_keys.len() > 0 {
            let mut msg = String::from_str("Unknown keys found in tool instance params: ");
            msg = msg.concat(fmt_key_list(&unknown_keys).as_str());
            proof {
                reveal_strlit("[");
                reveal_strlit("]");
                reveal_strlit("Unknown keys found in tool instance params: ");
                reveal_strlit("Unknown keys found in tool instance params: [");
                assert(msg@ =~= unknown_keys_msg(unknown_keys_of(im)));
            }
            let ghost pre_errs = compile_errors@;
            compile_errors.push(
                CompileError {
                    filename: duplicate_filename(filename),
                    message: msg,
                    content_address: tool_def.content_address,
                    error_type: CompilerErrorType::Error,
                },
            );
            proof {
                assert(diags_view(compile_errors@) =~= diags_view(pre_errs).push(
                    diag_view(compile_errors@.last()),
                ));
            }
        }
        let ghost d1 = diags_view(compile_errors@);

        let mut valid_prop = true;
        let type_ok: bool;
        match map.get("type") {
            Some(p) => {
                if !p.is_type(&ChkParamType::PkTypeName) {
                    let got = p.type_label();
                    let msg = String::from_str("Invalid type ").concat(got.as_str()).concat(
                        " for param 'type', should be a type name (String, Int, Bool)",
                    );
                    proof {
                        assert(msg@ =~= invalid_tool_type_msg(
                            crate::params::value_type_name(p.value),
                        ));
                    }
                    let ghost pre_errs = compile_errors@;
                    compile_errors.push(
                        CompileError {
                            filename: duplicate_filename(filename),
                            message: msg,
                            content_address: p.content_address,
                            error_type: CompilerErrorType::Error,
                        },
                    );
                    proof {
                        assert(diags_view(compile_errors@) =~= diags_view(pre_errs).push(
                            diag_view(compile_errors@.last()),
                        ));
                    }
                    valid_prop = false;
                    type_ok = false;
                } else {
                    type_ok = true;
                }
            },
            None => {
                let ghost pre_errs = compile_errors@;
                compile_errors.push(
                    CompileError {
                        filename: duplicate_filename(filename),
                        message: String::from_str("Missing tool parameter 'type'"),
                        content_address: tool_def.content_address,
                        error_type: CompilerErrorType::Error,
                    },
                );
                proof {
                    assert(diags_view(compile_errors@) =~= diags_view(pre_errs).push(
                        diag_view(compile_errors@.last()),
                    ));
                }
                valid_prop = false;
                type_ok = false;
            },
        }
        let ghost d2 = diags_view(compile_errors@);

        let required_ok: bool;
        match map.get("required") {
            Some(p) => {
                if !p.is_type(&ChkParamType::PkBool) {
                    let got = p.type_label();
                    let msg = String::from_str("Invalid type ").concat(got.as_str()).concat(
                        " for param 'required', should be a bool",
                    );
                    proof {
                        assert(msg@ =~= invalid_tool_required_msg(
                            crate::params::value_type_name(p.value),
                        ));
                    }
                    let ghost pre_errs = compile_errors@;
                    compile_errors.push(
                        CompileError {
                            filename: duplicate_filename(filename),
                            message: msg,
                            content_address: p.content_address,
                            error_type: CompilerErrorType::Error,
                        },
                    );
                    proof {
                        assert(diags_view(compile_errors@) =~= diags_view(pre_errs).push(
                            diag_view(compile_errors@.last()),
                        ));
                    }
                    valid_prop = false;
                    required_ok = false;
                } else {
                    required_ok = true;
                }
            },
            None => {
                let ghost pre_errs = compile_errors@;
                compile_errors.push(
                    CompileError {
                        filename: duplicate_filename(filename),
                        message: String::from_str("Missing tool parameter 'required'"),
                        content_address: tool_def.content_address,
                        error_type: CompilerErrorType::Error,
                    },
                );
                proof {
                    assert(diags_view(compile_errors@) =~= diags_view(pre_errs).push(
                        diag_view(compile_errors@.last()),
                    ));
                }
                valid_prop = false;
                required_ok = false;
            },
        }

        if valid_prop {
            let type_value = match map.get("type") {
                Some(p) => p,
                None => vstd::pervasive::unreached(),
            };
            let required = match map.get("required") {
                Some(p) => p,
                None => vstd::pervasive::unreached(),
            };
            let named = type_value.get_named_type();
            instance_params.push(
                ChkFormalParam {
                    name: entry.0.clone(),
                    required: required.get_bool(),
                    param_type: ChkParamType::from(named),
                    param_default: None,
                },
            );
        }
        proof {
            reveal(Seq::filter);
            let t = entries.take(e as int + 1);
            assert(t.drop_last() =~= entries.take(e as int));
            assert(t.last() == entries[e as int]);
            assert(valid_prop == prop_valid_pred()(entries[e as int]));
            if compile_errors@.len() == pre_len {
                assert(unknown_keys@.len() == 0);
                assert(unknown_keys_of(im).len() == 0) by {
                    assert(crate::strutil::views_of_strings(unknown_keys@).len() == 0);
                }
                assert(param_map_valid(im)) by {
                    assert forall|l: int| 0 <= l < im@.len() implies ((#[trigger] im@[l]).0
                        == "type"@ || im@[l].0 == "required"@) by {
                        if im@[l].0 != "type"@ && im@[l].0 != "required"@ {
                            im@.lemma_filter_contains(unknown_key_pred(), l);
                        }
                    }
                }
            } else {
                assert(!param_map_valid(im)) by {
                    if param_map_valid(im) {
                        assert(unknown_keys_of(im).len() == 0) by {
                            if im@.filter(unknown_key_pred()).len() > 0 {
                                im@.lemma_filter_pred(unknown_key_pred(), 0);
                                let w = im@.filter(unknown_key_pred())[0];
                                assert(im@.filter(unknown_key_pred()).contains(w));
                                im@.lemma_filter_contains_rev(unknown_key_pred(), w);
                                assert(im@.contains(w));
                                let wi = choose|wi: int| 0 <= wi < im@.len() && im@[wi] == w;
                                assert(im@[wi].0 == "type"@ || im@[wi].0 == "required"@);
                            }
                        }
                        assert(type_ok && required_ok);
                        assert(compile_errors@.len() == pre_len);
                    }
                }
            }
            // the three diagnostic segments of this entry, in order
            assert(diags_view(compile_errors@) =~= d0 + tool_entry_diags(
                fname,
                addr,
                entries[e as int],
            ));
            lemma_tool_entries_diags_take_step(fname, addr, entries, e as int);
            assert(diags_view(compile_errors@) =~= diags_view(old(compile_errors)@)
                + tool_entries_diags(fname, addr, entries.take(e as int + 1)));
            assert(old(compile_errors)@.is_prefix_of(compile_errors@)) by {
                assert(pre_iter.is_prefix_of(compile_errors@)) by {
                    assert(pre_iter =~= compile_errors@.subrange(0, pre_iter.len() as int));
                }
                assert forall|q: int| 0 <= q < old(compile_errors)@.len() implies compile_errors@[q]
                    == old(compile_errors)@[q] by {
                    assert(pre_iter.subrange(0, old(compile_errors)@.len() as int)[q]
                        == pre_iter[q]);
                    assert(compile_errors@.subrange(0, pre_iter.len() as int)[q]
                        == compile_errors@[q]);
                }
                assert(old(compile_errors)@ =~= compile_errors@.subrange(
                    0,
                    old(compile_errors)@.len() as int,
                ));
            }
            if valid_prop {
                assert(t.filter(prop_valid_pred()) =~= entries.take(e as int).filter(
                    prop_valid_pred(),
                ).push(entries[e as int]));
                assert(formal_matches_entry(instance_params@.last(), entries[e as int]));
            } else {
                assert(t.filter(prop_valid_pred()) =~= entries.take(e as int).filter(
                    prop_valid_pred(),
                ));
            }
        }
        e = e + 1;
    }
    proof {
        reveal(valid_tool_entries);
        assert(entries.take(ipn as int) =~= entries);
    }
    instance_params
}

/// Registers the tools declared across a batch of files. Every structural
/// problem in every declaration is reported in one pass; if any problem was
/// found anywhere in the batch, no tool at all is registered.
#[verifier::rlimit(100)]
pub fn make_tools(fns: &mut ChkDefRegistry, ast_file_tools: Vec<AstFileTools>) -> (r: Vec<
    CompileError,
>)
    requires
        old(fns).wf(),
        tools_batch_wf(ast_file_tools@),
    ensures
        final(fns).wf(),
        diags_view(r@) == batch_tools_diags(ast_file_tools@),
        r@.len() == 0 <==> tools_batch_valid(ast_file_tools@),
        r@.len() > 0 ==> *final(fns) == *old(fns),
        final(fns).group_fns == old(fns).group_fns,
        r@.len() == 0 ==> forall|f: int, j: int|
            #![trigger ast_file_tools@[f].tool_defs@[j]]
            0 <= f < ast_file_tools@.len() && 0 <= j < ast_file_tools@[f].tool_defs@.len()
                ==> final(fns).check_fns.contains_key_spec(
                ast_file_tools@[f].tool_defs@[j].name@,
            ),
{
    let mut compile_errors: Vec<CompileError> = Vec::new();
    let mut pending: Vec<ToolDef> = Vec::new();
    let ghost g_files = ast_file_tools@;
    let mut rest_files = ast_file_tools;
    proof {
        assert(rest_files@ =~= g_files.skip(0));
        assert(g_files.take(0) =~= Seq::<AstFileTools>::empty());
        assert(diags_view(compile_errors@) =~= Seq::<DiagV>::empty());
    }
    while rest_files.len() > 0
        invariant
            rest_files@.len() <= g_files.len(),
            rest_files@ == g_files.skip(g_files.len() - rest_files@.len()),
            tools_batch_wf(g_files),
            diags_view(compile_errors@) == batch_tools_diags(
                g_files.take(g_files.len() - rest_files@.len()),
            ),
            compile_errors@.len() == 0 <==> (forall|f: int, j: int|
                0 <= f < g_files.len() - rest_files@.len() && 0 <= j
                    < g_files[f].tool_defs@.len() ==> tool_valid(
                    #[trigger] g_files[f].tool_defs@[j],
                )),
            forall|f: int, j: int|
                #![trigger g_files[f].tool_defs@[j]]
                0 <= f < g_files.len() - rest_files@.len() && 0 <= j
                    < g_files[f].tool_defs@.len() ==> exists|p: int|
                    0 <= p < pending@.len() && (#[trigger] pending@[p]).tool_name@
                        == g_files[f].tool_defs@[j].name@,
        decreases rest_files@.len(),
    {
        let ghost fdone = g_files.len() - rest_files@.len();
        proof {
            assert(g_files.skip(fdone as int)[0] == g_files[fdone as int]);
        }
        let ast_file_tool = rest_files.remove(0);
        proof {
            assert(ast_file_tool == g_files[fdone as int]);
            assert(rest_files@ =~= g_files.skip(fdone as int + 1));
        }
        let ghost g_tools = ast_file_tool.tool_defs@;
        let ghost file_fname = opt_view(ast_file_tool.filename);
        let mut tool_defs = ast_file_tool.tool_defs;
        proof {
            assert(tool_defs@ =~= g_tools.skip(0));
            assert(g_tools.take(0) =~= Seq::<crate::ast::AstToolDef>::empty());
            assert(file_tools_diags(file_fname, g_tools.take(0)) =~= Seq::<DiagV>::empty());
        }
        while tool_defs.len() > 0
            invariant
                tool_defs@.len() <= g_tools.len(),
                tool_defs@ == g_tools.skip(g_tools.len() - tool_defs@.len()),
                tools_batch_wf(g_files),
                0 <= fdone < g_files.len(),
                g_tools == g_files[fdone as int].tool_defs@,
                file_fname == opt_view(g_files[fdone as int].filename),
                file_fname == opt_view(ast_file_tool.filename),
                diags_view(compile_errors@) == batch_tools_diags(g_files.take(fdone as int))
                    + file_tools_diags(
                    file_fname,
                    g_tools.take(g_tools.len() - tool_defs@.len()),
                ),
                compile_errors@.len() == 0 <==> ((forall|f: int, j: int|
                    0 <= f < fdone && 0 <= j < g_files[f].tool_defs@.len() ==> tool_valid(
                        #[trigger] g_files[f].tool_defs@[j],
                    )) && (forall|j: int|
                    0 <= j < g_tools.len() - tool_defs@.len() ==> tool_valid(
                        #[trigger] g_tools[j],
                    ))),
                forall|f: int, j: int|
                    #![trigger g_files[f].tool_defs@[j]]
                    (0 <= f < fdone && 0 <= j < g_files[f].tool_defs@.len()) || (f == fdone && 0
                        <= j < g_tools.len() - tool_defs@.len()) ==> exists|p: int|
                        0 <= p < pending@.len() && (#[trigger] pending@[p]).tool_name@
                            == g_files[f].tool_defs@[j].name@,
            decreases tool_defs@.len(),
        {
            let ghost tdone = g_tools.len() - tool_defs@.len();
            proof {
                assert(g_tools.skip(tdone as int)[0] == g_tools[tdone as int]);
            }
            let tool_def = tool_defs.remove(0);
            proof {
                assert(tool_def == g_tools[tdone as int]);
                assert(tool_defs@ =~= g_tools.skip(tdone as int + 1));
            }
            let instance_params = validate_tool_params(
                &tool_def,
                &ast_file_tool.filename,
                &mut compile_errors,
            );
            let td = ToolDef {
                tool_name: tool_def.name,
                template_params: tool_def.params.template_params,
                instance_params,
                shell: None,
                accepts_retry: true,
            };
            let ghost pre_pending = pending@;
            pending.push(td);
            proof {
                lemma_file_tools_diags_take_step(file_fname, g_tools, tdone as int);
                assert(diags_view(compile_errors@) =~= (batch_tools_diags(
                    g_files.take(fdone as int),
                ) + file_tools_diags(file_fname, g_tools.take(tdone as int)))
                    + tool_entries_diags(
                    file_fname,
                    g_tools[tdone as int].content_address,
                    g_tools[tdone as int].params.instance_params@,
                ));
                assert(diags_view(compile_errors@) =~= batch_tools_diags(
                    g_files.take(fdone as int),
                ) + file_tools_diags(file_fname, g_tools.take(tdone as int + 1)));
                assert(pending@.last().tool_name == g_tools[tdone as int].name);
                assert forall|f: int, j: int|
                    #![trigger g_files[f].tool_defs@[j]]
                    (0 <= f < fdone && 0 <= j < g_files[f].tool_defs@.len()) || (f == fdone && 0
                        <= j < tdone + 1) implies exists|p: int|
                    0 <= p < pending@.len() && (#[trigger] pending@[p]).tool_name@
                        == g_files[f].tool_defs@[j].name@ by {
                    if f == fdone && j == tdone {
                        assert(pending@[pending@.len() - 1].tool_name@
                            == g_files[f].tool_defs@[j].name@);
                    } else {
                        let p = choose|p: int|
                            0 <= p < pre_pending.len() && (#[trigger] pre_pending[p]).tool_name@
                                == g_files[f].tool_defs@[j].name@;
                        assert(pending@[p].tool_name@ == g_files[f].tool_defs@[j].name@);
                    }
                }
            }
        }
        proof {
            assert(g_tools.take(g_tools.len() as int) =~= g_tools);
            lemma_batch_tools_diags_take_step(g_files, fdone as int);
        }
    }
    proof {
        assert(g_files.take(g_files.len() as int) =~= g_files);
    }
    if compile_errors.len() == 0 {
        // The whole batch validated: register every declared tool, in order.
        let ghost g_pending = pending@;
        let mut rest = pending;
        proof {
            assert(rest@ =~= g_pending.skip(0));
        }
        while rest.len() > 0
            invariant
                fns.wf(),
                rest@.len() <= g_pending.len(),
                rest@ == g_pending.skip(g_pending.len() - rest@.len()),
                fns.group_fns == old(fns).group_fns,
                forall|p: int|
                    0 <= p < g_pending.len() - rest@.len() ==> fns.check_fns.contains_key_spec(
                        (#[trigger] g_pending[p]).tool_name@,
                    ),
            decreases rest@.len(),
        {
            let ghost pdone = g_pending.len() - rest@.len();
            proof {
                assert(g_pending.skip(pdone as int)[0] == g_pending[pdone as int]);
            }
            let td = rest.remove(0);
            proof {
                assert(td == g_pending[pdone as int]);
                assert(rest@ =~= g_pending.skip(pdone as int + 1));
            }
            let def = crate::builtin_tools::metadef_tool(&td);
            let name = td.tool_name.clone();
            fns.register_fn(name, def);
        }
        proof {
            assert(g_pending.skip(0) =~= g_pending);
            assert forall|f: int, j: int|
                #![trigger g_files[f].tool_defs@[j]]
                0 <= f < g_files.len() && 0 <= j
                    < g_files[f].tool_defs@.len() implies fns.check_fns.contains_key_spec(
                g_files[f].tool_defs@[j].name@,
            ) by {
                let p = choose|p: int|
                    0 <= p < g_pending.len() && (#[trigger] g_pending[p]).tool_name@
                        == g_files[f].tool_defs@[j].name@;
                assert(fns.check_fns.contains_key_spec(g_pending[p].tool_name@));
            }
        }
    }
    compile_errors
}

/// The missing-required-parameter diagnostics of one instance name their
/// parameters in lexicographically sorted order, so the same diagnostics
/// appear in the same order on every run.
pub proof fn lemma_missing_names_sorted(inst: ChkInstance)
    ensures
        vstd::relations::sorted_by(missing_required_names(inst), crate::strutil::str_leq()),
{
    crate::strutil::lemma_str_le_total_ordering();
    inst.materialized_formal_params->0@.filter(missing_pred(inst)).map_values(
        formal_entry_name(),
    ).lemma_sort_by_ensures(crate::strutil::str_leq());
}

/// A compiled file's instance ids: one for each node, strictly increasing
/// in construction order, starting at the base id — so ids are unique
/// within a file and never collide with the low sentinel range.
pub proof fn lemma_instance_ids_strictly_increasing(start: int, n: int)
    requires
        0 <= start,
        0 <= n,
        start + n <= usize::MAX as int + 1,
    ensures
        id_run(start, n).len() == n,
        forall|p: int, q: int|
            0 <= p < q < n ==> #[trigger] id_run(start, n)[p] < #[trigger] id_run(start, n)[q],
        n > 0 ==> id_run(start, n)[0] == start,
{
    assert forall|p: int, q: int| 0 <= p < q < n implies #[trigger] id_run(start, n)[p]
        < #[trigger] id_run(start, n)[q] by {
        assert(id_run(start, n)[p] == (start + p) as usize);
        assert(id_run(start, n)[q] == (start + q) as usize);
    }
}

/// Structural sameness of two instance trees, leaving the materialized
/// schemas aside (their implicit entries are fresh values each time, equal
/// in everything their contracts state): the same borrowed definition, the
/// same parameters, flags and source spans, and children alike in order.
pub open spec fn insts_similar(a: ChkInstance, b: ChkInstance) -> bool
    decreases a,
{
    &&& *a.fn_def == *b.fn_def
    &&& a.title == b.title
    &&& a.actual_params == b.actual_params
    &&& a.negated == b.negated
    &&& a.is_retrying == b.is_retrying
    &&& a.content_address == b.content_address
    &&& a.is_query == b.is_query
    &&& a.children@.len() == b.children@.len()
    &&& forall|j: int|
        0 <= j < a.children@.len() ==> insts_similar(#[trigger] a.children@[j], b.children@[j])
}

/// Compiling the same raw tree twice against the same registry yields
/// structurally identical instance trees, and the same ids as well, since
/// the id counter restarts at the base id for every compilation.
pub proof fn lemma_compile_round_trip(
    reg: ChkDefRegistry,
    node: AstCheckDef,
    first: ChkInstance,
    second: ChkInstance,
    start: int,
)
    requires
        instance_matches_ast(reg, node, first),
        instance_matches_ast(reg, node, second),
        tree_ids(first) == id_run(start, ast_size(node) as int),
        tree_ids(second) == id_run(start, ast_size(node) as int),
    ensures
        insts_similar(first, second),
        tree_ids(first) == tree_ids(second),
{
    lemma_matches_similar(reg, node, first, second);
}

/// Two instance trees built from the same raw tree are structurally alike.
proof fn lemma_matches_similar(
    reg: ChkDefRegistry,
    node: AstCheckDef,
    a: ChkInstance,
    b: ChkInstance,
)
    requires
        instance_matches_ast(reg, node, a),
        instance_matches_ast(reg, node, b),
    ensures
        insts_similar(a, b),
    decreases node,
{
    assert forall|j: int| 0 <= j < a.children@.len() implies insts_similar(
        #[trigger] a.children@[j],
        b.children@[j],
    ) by {
        lemma_matches_similar(reg, node.children@[j], a.children@[j], b.children@[j]);
    }
}

/// A materialized instance that type-checked without a diagnostic binds
/// every hook parameter, if at all, to a plain string, and — when it
/// retries — binds `retries` to an integer and `retry_delay` to a duration.
/// These are exactly the typing obligations the engine's requirement makes
/// of a node beyond its leaf argument; only a positive retry count is more
/// than types can promise.
pub proof fn lemma_clean_node_is_typed_for_running(fname: Option<Seq<char>>, inst: ChkInstance)
    requires
        inst.materialized_formal_params is Some,
        inst.materialized_formal_params->0.wf(),
        inst.actual_params.wf(),
        materialized_ok(
            inst.fn_def.formal_params.as_map(),
            inst.is_retrying,
            inst.materialized_formal_params->0,
        ),
        node_diags(fname, inst).len() == 0,
    ensures
        crate::engine::hook_param_ok(inst, "on_pass"@),
        crate::engine::hook_param_ok(inst, "on_fail"@),
        crate::engine::hook_param_ok(inst, "on_error"@),
        crate::engine::hook_param_ok(inst, "on_init"@),
        crate::engine::hook_param_ok(inst, "on_term"@),
        inst.is_retrying ==> {
            &&& inst.actual_params.contains_key_spec("retries"@)
            &&& crate::strmap::entries_value_of(inst.actual_params@, "retries"@).value is PkInt
            &&& inst.actual_params.contains_key_spec("retry_delay"@)
            &&& crate::strmap::entries_value_of(
                inst.actual_params@,
                "retry_delay"@,
            ).value is PkDuration
        },
{
    broadcast use vstd::seq_lib::group_to_multiset_ensures;

    let m = inst.materialized_formal_params->0;
    assert(missing_diags(fname, inst).len() == 0);
    assert(type_error_diags(fname, inst).len() == 0);
    crate::strutil::lemma_str_le_total_ordering();
    let unsorted = m@.filter(missing_pred(inst)).map_values(formal_entry_name());
    unsorted.lemma_sort_by_ensures(crate::strutil::str_leq());
    assert(unsorted.sort_by(crate::strutil::str_leq()).to_multiset() =~= unsorted.to_multiset());
    assert(unsorted.sort_by(crate::strutil::str_leq()).len() == unsorted.sort_by(
        crate::strutil::str_leq(),
    ).to_multiset().len());
    assert(unsorted.len() == unsorted.to_multiset().len());
    assert(m@.filter(missing_pred(inst)).len() == 0);
    crate::instance::lemma_implicit_param_names_distinct();

    assert forall|k: Seq<char>|
        crate::instance::is_meta_param(k) implies crate::engine::hook_param_ok(inst, k) by {
        if inst.actual_params.contains_key_spec(k) {
            lemma_clean_param_typed(fname, inst, k);
            assert(param_type_ok(
                ChkParamType::PkString,
                crate::strmap::entries_value_of(inst.actual_params@, k).value,
            ));
        }
    }
    assert(crate::instance::is_meta_param("on_pass"@));
    assert(crate::instance::is_meta_param("on_fail"@));
    assert(crate::instance::is_meta_param("on_error"@));
    assert(crate::instance::is_meta_param("on_init"@));
    assert(crate::instance::is_meta_param("on_term"@));
    if inst.is_retrying {
        lemma_clean_param_required(fname, inst, "retries"@);
        lemma_clean_param_typed(fname, inst, "retries"@);
        lemma_clean_param_required(fname, inst, "retry_delay"@);
        lemma_clean_param_typed(fname, inst, "retry_delay"@);
        assert(param_type_ok(
            ChkParamType::PkInt,
            crate::strmap::entries_value_of(inst.actual_params@, "retries"@).value,
        ));
        assert(param_type_ok(
            ChkParamType::PkDuration,
            crate::strmap::entries_value_of(inst.actual_params@, "retry_delay"@).value,
        ));
    }
}

/// With no type-mismatch diagnostics, a bound parameter that the schema
/// declares matches its declared type.
proof fn lemma_clean_param_typed(fname: Option<Seq<char>>, inst: ChkInstance, k: Seq<char>)
    requires
        inst.materialized_formal_params is Some,
        inst.materialized_formal_params->0.wf(),
        inst.materialized_formal_params->0.contains_key_spec(k),
        type_error_diags(fname, inst).len() == 0,
        inst.actual_params.contains_key_spec(k),
    ensures
        param_type_ok(
            inst.materialized_formal_params->0.as_map()[k].param_type,
            crate::strmap::entries_value_of(inst.actual_params@, k).value,
        ),
{
    let m = inst.materialized_formal_params->0;
    let j = crate::strmap::entry_index_of(m@, k);
    assert(0 <= j < m@.len() && m@[j].0 == k);
    assert(m.as_map()[k] == m@[j].1);
    if !param_type_ok(
        m@[j].1.param_type,
        crate::strmap::entries_value_of(inst.actual_params@, k).value,
    ) {
        assert(type_err_pred(inst)(m@[j]));
        m@.lemma_filter_contains(type_err_pred(inst), j);
        assert(m@.filter(type_err_pred(inst)).len() > 0);
    }
}

/// With no missing-required diagnostics, a parameter the schema requires is
/// bound.
proof fn lemma_clean_param_required(fname: Option<Seq<char>>, inst: ChkInstance, k: Seq<char>)
    requires
        inst.materialized_formal_params is Some,
        inst.materialized_formal_params->0.wf(),
        inst.materialized_formal_params->0.contains_key_spec(k),
        inst.materialized_formal_params->0.as_map()[k].required,
        inst.materialized_formal_params->0.as_map()[k].name@ == k,
        missing_diags(fname, inst).len() == 0,
    ensures
        inst.actual_params.contains_key_spec(k),
{
    broadcast use vstd::seq_lib::group_to_multiset_ensures;

    let m = inst.materialized_formal_params->0;
    crate::strutil::lemma_str_le_total_ordering();
    let unsorted = m@.filter(missing_pred(inst)).map_values(formal_entry_name());
    unsorted.lemma_sort_by_ensures(crate::strutil::str_leq());
    assert(unsorted.sort_by(crate::strutil::str_leq()).to_multiset() =~= unsorted.to_multiset());
    assert(unsorted.sort_by(crate::strutil::str_leq()).len() == unsorted.sort_by(
        crate::strutil::str_leq(),
    ).to_multiset().len());
    assert(unsorted.len() == unsorted.to_multiset().len());
    assert(missing_required_names(inst).len() == unsorted.len());
    let j = crate::strmap::entry_index_of(m@, k);
    assert(0 <= j < m@.len() && m@[j].0 == k);
    assert(m.as_map()[k] == m@[j].1);
    if !inst.actual_params.contains_key_spec(k) {
        assert(missing_pred(inst)(m@[j]));
        m@.lemma_filter_contains(missing_pred(inst), j);
        assert(m@.filter(missing_pred(inst)).len() > 0);
    }
}

/// A resolvable node's definition sits in a well-formed registry, so its
/// formal-parameter map is well-formed.
proof fn lemma_def_lookup_wf(reg: ChkDefRegistry, node: AstCheckDef)
    requires
        reg.wf(),
        defs_wf(reg),
        if node.is_group {
            reg.group_fns.contains_key_spec(node.fn_name@)
        } else {
            reg.check_fns.contains_key_spec(node.fn_name@)
        },
    ensures
        node_def(reg, node).formal_params.wf(),
{
    if node.is_group {
        let j = crate::strmap::entry_index_of(reg.group_fns@, node.fn_name@);
        assert(0 <= j < reg.group_fns@.len() && reg.group_fns@[j].0 == node.fn_name@);
        assert(reg.group_fns@[j].1.formal_params.wf());
        assert(reg.group_fns.as_map()[node.fn_name@] == reg.group_fns@[j].1);
    } else {
        let j = crate::strmap::entry_index_of(reg.check_fns@, node.fn_name@);
        assert(0 <= j < reg.check_fns@.len() && reg.check_fns@[j].0 == node.fn_name@);
        assert(reg.check_fns@[j].1.formal_params.wf());
        assert(reg.check_fns.as_map()[node.fn_name@] == reg.check_fns@[j].1);
    }
}

} // verus!
