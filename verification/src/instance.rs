//! Check instances: the compiler's output and the engine's runtime unit.
//! An instance binds a borrowed function definition to actual parameters,
//! children, negation and retry flags, and a file-unique id.
use vstd::prelude::*;

use crate::data::{duplicate_formal_params, ChkDef, ChkFormalParams, FParamBuilder};
use crate::events::ChkLifecycleEvent;
use crate::params::{ChkActualParam, ChkActualParams, ContentAddress};
use crate::strmap::StrMap;
use crate::ChkInstId;

verus! {

/// A raw instance as it looks before its definition reference is known to
/// be resolved.
pub struct ChkInstancePreMaterialized<'a> {
    pub title: Option<String>,
    pub fn_def: Option<&'a ChkDef>,
    pub actual_params: ChkActualParams,
    pub materialized_formal_params: Option<ChkFormalParams>,
    pub children: Vec<ChkInstancePreMaterialized<'a>>,
    pub negated: bool,
    pub is_retrying: bool,
    pub instance_id: usize,
    pub content_address: ContentAddress,
    pub is_query: bool,
}

/// One materialized occurrence of a check or group in a compiled file. The
/// definition is borrowed from the registry, which outlives every instance.
#[derive(Debug)]
pub struct ChkInstance<'a> {
    pub title: Option<String>,
    pub fn_def: &'a ChkDef,
    pub actual_params: ChkActualParams,
    pub materialized_formal_params: Option<ChkFormalParams>,
    pub children: Vec<ChkInstance<'a>>,
    pub negated: bool,
    pub is_retrying: bool,
    pub instance_id: usize,
    pub content_address: ContentAddress,
    pub is_query: bool,
}

impl<'a> Clone for ChkInstance<'a> {
    /// A deep copy: the same borrowed definition, the parameter entries
    /// copied, the children cloned recursively.
    fn clone(&self) -> (res: Self)
        ensures
            res.title == self.title,
            res.fn_def == self.fn_def,
            res.actual_params@ == self.actual_params@,
            res.children@.len() == self.children@.len(),
            res.negated == self.negated,
            res.is_retrying == self.is_retrying,
            res.instance_id == self.instance_id,
            res.content_address == self.content_address,
            res.is_query == self.is_query,
        decreases *self,
    {
        let mut children: Vec<ChkInstance<'a>> = Vec::new();
        let n = self.children.len();
        let mut j: usize = 0;
        while j < n
            invariant
                j <= n,
                n == self.children@.len(),
                children@.len() == j,
            decreases n - j,
        {
            children.push(self.children[j].clone());
            j = j + 1;
        }
        let materialized_formal_params = match &self.materialized_formal_params {
            Some(m) => Some(crate::data::duplicate_formal_params(m)),
            None => None,
        };
        let title = match &self.title {
            Some(t) => Some(t.clone()),
            None => None,
        };
        ChkInstance {
            title,
            fn_def: self.fn_def,
            actual_params: crate::params::duplicate_actual_params(&self.actual_params),
            materialized_formal_params,
            children,
            negated: self.negated,
            is_retrying: self.is_retrying,
            instance_id: self.instance_id,
            content_address: self.content_address,
            is_query: self.is_query,
        }
    }
}

/// The ids of all instances in a tree, in construction (post-) order:
/// children first, then the node itself.
pub open spec fn tree_ids(inst: ChkInstance) -> Seq<ChkInstId>
    decreases inst,
{
    forest_ids(inst.children@).push(inst.instance_id)
}

/// The ids of a forest of trees, left to right.
pub open spec fn forest_ids(insts: Seq<ChkInstance>) -> Seq<ChkInstId>
    decreases insts,
{
    if insts.len() == 0 {
        Seq::empty()
    } else {
        tree_ids(insts.first()) + forest_ids(insts.drop_first())
    }
}

/// A forest's ids split at any point into the ids of the first `j` trees
/// and the ids of the rest.
pub proof fn lemma_forest_ids_split(s: Seq<ChkInstance>, j: int)
    requires
        0 <= j <= s.len(),
    ensures
        forest_ids(s) == forest_ids(s.take(j)) + forest_ids(s.skip(j)),
    decreases j,
{
    if j == 0 {
        assert(s.take(0) =~= Seq::<ChkInstance>::empty());
        assert(s.skip(0) =~= s);
        assert(forest_ids(s) =~= forest_ids(s.take(0)) + forest_ids(s.skip(0)));
    } else {
        let t = s.drop_first();
        lemma_forest_ids_split(t, j - 1);
        assert(s.take(j).first() == s.first());
        assert(s.take(j).drop_first() =~= t.take(j - 1));
        assert(s.skip(j) =~= t.skip(j - 1));
        assert(forest_ids(s.take(j)) == tree_ids(s.first()) + forest_ids(t.take(j - 1)));
        assert(forest_ids(s) == tree_ids(s.first()) + forest_ids(t));
        assert(forest_ids(s) =~= forest_ids(s.take(j)) + forest_ids(s.skip(j)));
    }
}

/// Adding the `j`-th tree to a prefix of a forest appends exactly that
/// tree's ids.
pub proof fn lemma_forest_ids_take_step(s: Seq<ChkInstance>, j: int)
    requires
        0 <= j < s.len(),
    ensures
        forest_ids(s.take(j + 1)) == forest_ids(s.take(j)) + tree_ids(s[j]),
{
    let u = s.take(j + 1);
    lemma_forest_ids_split(u, j);
    assert(u.take(j) =~= s.take(j));
    assert(u.skip(j) =~= seq![s[j]]);
    assert(forest_ids(seq![s[j]]) == tree_ids(s[j]) + forest_ids(
        seq![s[j]].drop_first(),
    ));
    assert(seq![s[j]].drop_first() =~= Seq::<ChkInstance>::empty());
    assert(forest_ids(u.skip(j)) =~= tree_ids(s[j]));
}

/// The ids of a tree are the ids of the trees before child `j`, then the
/// ids of child `j`, then the ids of the trees after it, then the node's
/// own id.
pub proof fn lemma_tree_ids_decomposition(i: ChkInstance, j: int)
    requires
        0 <= j < i.children@.len(),
    ensures
        tree_ids(i) == ((forest_ids(i.children@.take(j)) + tree_ids(i.children@[j])) + forest_ids(
            i.children@.skip(j + 1),
        )).push(i.instance_id),
        forall|a: int|
            0 <= a < tree_ids(i.children@[j]).len() ==> tree_ids(i)[forest_ids(
                i.children@.take(j),
            ).len() + a] == tree_ids(i.children@[j])[a],
        forest_ids(i.children@.take(j)).len() + tree_ids(i.children@[j]).len() <= forest_ids(
            i.children@,
        ).len(),
        forall|a: int|
            0 <= a < forest_ids(i.children@.take(j)).len() ==> tree_ids(i)[a] == forest_ids(
                i.children@.take(j),
            )[a],
{
    let s = i.children@;
    lemma_forest_ids_split(s, j);
    assert(s.skip(j).first() == s[j]);
    assert(s.skip(j).drop_first() =~= s.skip(j + 1));
    assert(forest_ids(s.skip(j)) == tree_ids(s[j]) + forest_ids(s.skip(j + 1)));
    assert(tree_ids(i) =~= ((forest_ids(s.take(j)) + tree_ids(s[j])) + forest_ids(
        s.skip(j + 1),
    )).push(i.instance_id));
}

/// Inside a tree whose ids are pairwise distinct, each child's ids are
/// pairwise distinct too, and the node's own id does not occur among its
/// descendants.
pub proof fn lemma_tree_nodup_child(i: ChkInstance, j: int)
    requires
        0 <= j < i.children@.len(),
        forall|p: int, q: int|
            0 <= p < q < tree_ids(i).len() ==> tree_ids(i)[p] != tree_ids(i)[q],
    ensures
        forall|p: int, q: int|
            0 <= p < q < tree_ids(i.children@[j]).len() ==> tree_ids(i.children@[j])[p]
                != tree_ids(i.children@[j])[q],
        forall|k: ChkInstId|
            forest_ids(i.children@.take(j)).contains(k) ==> !tree_ids(i.children@[j]).contains(k),
{
    lemma_tree_ids_decomposition(i, j);
    let off = forest_ids(i.children@.take(j)).len() as int;
    let c = tree_ids(i.children@[j]);
    assert forall|p: int, q: int| 0 <= p < q < c.len() implies c[p] != c[q] by {
        assert(tree_ids(i)[off + p] == c[p]);
        assert(tree_ids(i)[off + q] == c[q]);
    }
    assert forall|k: ChkInstId|
        forest_ids(i.children@.take(j)).contains(k) implies !c.contains(k) by {
        let a = choose|a: int|
            0 <= a < forest_ids(i.children@.take(j)).len() && forest_ids(i.children@.take(j))[a]
                == k;
        assert(tree_ids(i)[a] == k);
        if c.contains(k) {
            let b = choose|b: int| 0 <= b < c.len() && c[b] == k;
            assert(tree_ids(i)[off + b] == k);
            assert(a < off + b);
        }
    }
}

/// A node's own id does not occur among its children's ids when the tree's
/// ids are pairwise distinct.
pub proof fn lemma_tree_nodup_root(i: ChkInstance)
    requires
        forall|p: int, q: int|
            0 <= p < q < tree_ids(i).len() ==> tree_ids(i)[p] != tree_ids(i)[q],
    ensures
        !forest_ids(i.children@).contains(i.instance_id),
        tree_ids(i).contains(i.instance_id),
{
    let f = forest_ids(i.children@);
    assert(tree_ids(i)[f.len() as int] == i.instance_id);
    assert(tree_ids(i).contains(i.instance_id)) by {
        assert(tree_ids(i)[f.len() as int] == i.instance_id);
    }
    if f.contains(i.instance_id) {
        let a = choose|a: int| 0 <= a < f.len() && f[a] == i.instance_id;
        assert(tree_ids(i)[a] == i.instance_id);
    }
}

/// Membership in a child's ids implies membership in the tree's ids.
pub proof fn lemma_child_ids_in_tree(i: ChkInstance, j: int)
    requires
        0 <= j < i.children@.len(),
    ensures
        forall|k: ChkInstId|
            tree_ids(i.children@[j]).contains(k) ==> tree_ids(i).contains(k),
{
    lemma_tree_ids_decomposition(i, j);
    let off = forest_ids(i.children@.take(j)).len() as int;
    let c = tree_ids(i.children@[j]);
    assert forall|k: ChkInstId| c.contains(k) implies tree_ids(i).contains(k) by {
        let b = choose|b: int| 0 <= b < c.len() && c[b] == k;
        assert(tree_ids(i)[off + b] == k);
    }
}

/// Membership in a concatenation is membership in either part.
pub proof fn lemma_seq_concat_contains<T>(a: Seq<T>, b: Seq<T>)
    ensures
        forall|k: T| #![auto] (a + b).contains(k) <==> (a.contains(k) || b.contains(k)),
{
    assert forall|k: T| #![auto] (a + b).contains(k) implies (a.contains(k) || b.contains(
        k,
    )) by {
        let x = choose|x: int| 0 <= x < (a + b).len() && (a + b)[x] == k;
        if x < a.len() {
            assert(a[x] == k);
        } else {
            assert(b[x - a.len()] == k);
        }
    }
    assert forall|k: T| a.contains(k) implies #[trigger] (a + b).contains(k) by {
        let x = choose|x: int| 0 <= x < a.len() && a[x] == k;
        assert((a + b)[x] == k);
    }
    assert forall|k: T| b.contains(k) implies #[trigger] (a + b).contains(k) by {
        let x = choose|x: int| 0 <= x < b.len() && b[x] == k;
        assert((a + b)[a.len() + x] == k);
    }
}

/// For `l < j`, the ids of tree `l` appear among the ids of the first `j`
/// trees of a forest.
pub proof fn lemma_tree_in_forest_prefix(s: Seq<ChkInstance>, l: int, j: int)
    requires
        0 <= l < j <= s.len(),
    ensures
        forall|k: ChkInstId|
            tree_ids(s[l]).contains(k) ==> forest_ids(s.take(j)).contains(k),
{
    let u = s.take(j);
    lemma_forest_ids_split(u, l);
    assert(u.skip(l).first() == s[l]);
    assert(forest_ids(u.skip(l)) == tree_ids(s[l]) + forest_ids(u.skip(l).drop_first()));
    lemma_seq_concat_contains(tree_ids(s[l]), forest_ids(u.skip(l).drop_first()));
    lemma_seq_concat_contains(forest_ids(u.take(l)), forest_ids(u.skip(l)));
}

/// Inside a forest whose ids are pairwise distinct, each tree's ids are
/// pairwise distinct, and disjoint from those of the trees before it.
pub proof fn lemma_forest_nodup_member(s: Seq<ChkInstance>, j: int)
    requires
        0 <= j < s.len(),
        forall|p: int, q: int|
            0 <= p < q < forest_ids(s).len() ==> forest_ids(s)[p] != forest_ids(s)[q],
    ensures
        forall|p: int, q: int|
            0 <= p < q < tree_ids(s[j]).len() ==> tree_ids(s[j])[p] != tree_ids(s[j])[q],
        forall|k: ChkInstId|
            forest_ids(s.take(j)).contains(k) ==> !tree_ids(s[j]).contains(k),
{
    lemma_forest_ids_split(s, j);
    assert(s.skip(j).first() == s[j]);
    assert(s.skip(j).drop_first() =~= s.skip(j + 1));
    assert(forest_ids(s.skip(j)) == tree_ids(s[j]) + forest_ids(s.skip(j + 1)));
    let w = forest_ids(s.take(j));
    let c = tree_ids(s[j]);
    let off = w.len() as int;
    assert forall|a: int| 0 <= a < c.len() implies forest_ids(s)[off + a] == c[a] by {
        assert((tree_ids(s[j]) + forest_ids(s.skip(j + 1)))[a] == c[a]);
        assert((w + forest_ids(s.skip(j)))[off + a] == forest_ids(s.skip(j))[a]);
    }
    assert forall|a: int| 0 <= a < off implies forest_ids(s)[a] == w[a] by {
        assert((w + forest_ids(s.skip(j)))[a] == w[a]);
    }
    assert forall|p: int, q: int| 0 <= p < q < c.len() implies c[p] != c[q] by {
        assert(forest_ids(s)[off + p] == c[p]);
        assert(forest_ids(s)[off + q] == c[q]);
    }
    assert forall|k: ChkInstId| w.contains(k) implies !c.contains(k) by {
        let a = choose|a: int| 0 <= a < w.len() && w[a] == k;
        assert(forest_ids(s)[a] == k);
        if c.contains(k) {
            let b = choose|b: int| 0 <= b < c.len() && c[b] == k;
            assert(forest_ids(s)[off + b] == k);
            assert(a < off + b);
        }
    }
}

/// The six implicit meta-parameters every instance accepts: a display title
/// and the five lifecycle hooks.
pub open spec fn is_meta_param(k: Seq<char>) -> bool {
    ||| k == "title"@
    ||| k == "on_pass"@
    ||| k == "on_fail"@
    ||| k == "on_error"@
    ||| k == "on_init"@
    ||| k == "on_term"@
}

/// The two parameters a retrying instance must bind.
pub open spec fn is_retry_param(k: Seq<char>) -> bool {
    k == "retries"@ || k == "retry_delay"@
}

/// The names of the implicit parameters are pairwise distinct, and none of
/// the retry names is a meta name.
pub proof fn lemma_implicit_param_names_distinct()
    ensures
        !is_meta_param("retries"@),
        !is_meta_param("retry_delay"@),
        "title"@ != "on_pass"@ && "title"@ != "on_fail"@ && "title"@ != "on_error"@ && "title"@
            != "on_init"@ && "title"@ != "on_term"@,
        "on_pass"@ != "on_fail"@ && "on_pass"@ != "on_error"@ && "on_pass"@ != "on_init"@
            && "on_pass"@ != "on_term"@,
        "on_fail"@ != "on_error"@ && "on_fail"@ != "on_init"@ && "on_fail"@ != "on_term"@,
        "on_error"@ != "on_init"@ && "on_error"@ != "on_term"@,
        "on_init"@ != "on_term"@,
        "retries"@ != "retry_delay"@,
{
    reveal_strlit("title");
    reveal_strlit("on_pass");
    reveal_strlit("on_fail");
    reveal_strlit("on_error");
    reveal_strlit("on_init");
    reveal_strlit("on_term");
    reveal_strlit("retries");
    reveal_strlit("retry_delay");
    assert("title"@.len() == 5);
    assert("on_pass"@.len() == 7);
    assert("on_fail"@.len() == 7);
    assert("on_error"@.len() == 8);
    assert("on_init"@.len() == 7);
    assert("on_term"@.len() == 7);
    assert("retries"@.len() == 7);
    assert("retry_delay"@.len() == 11);
    assert("on_pass"@[3] == 'p');
    assert("on_fail"@[3] == 'f');
    assert("on_init"@[3] == 'i');
    assert("on_term"@[3] == 't');
    assert("retries"@[0] == 'r');
    assert("on_pass"@[0] == 'o');
    assert("on_fail"@[0] == 'o');
    assert("on_init"@[0] == 'o');
    assert("on_term"@[0] == 'o');
}

/// What a materialized schema holds: the definition's own parameters, the
/// six always-optional string meta-parameters (which shadow definition
/// parameters of the same name), and, for a retrying instance, the required
/// `retries` and `retry_delay` parameters.
pub open spec fn materialized_ok(
    base: Map<Seq<char>, crate::data::ChkFormalParam>,
    retrying: bool,
    m: ChkFormalParams,
) -> bool {
    &&& m.wf()
    &&& forall|k: Seq<char>|
        #![auto]
        m.contains_key_spec(k) <==> (base.contains_key(k) || is_meta_param(k) || (retrying
            && is_retry_param(k)))
    &&& forall|k: Seq<char>|
        #![auto]
        is_meta_param(k) ==> {
            let p = m.as_map()[k];
            p.name@ == k && !p.required && p.param_type == crate::data::ChkParamType::PkString
                && p.param_default is None
        }
    &&& retrying ==> {
        let p = m.as_map()["retries"@];
        p.name@ == "retries"@ && p.required && p.param_type == crate::data::ChkParamType::PkInt
            && p.param_default is None
    }
    &&& retrying ==> {
        let p = m.as_map()["retry_delay"@];
        p.name@ == "retry_delay"@ && p.required && p.param_type
            == crate::data::ChkParamType::PkDuration && p.param_default is None
    }
    &&& forall|k: Seq<char>|
        #![auto]
        base.contains_key(k) && !is_meta_param(k) && !(retrying && is_retry_param(k))
            ==> m.as_map()[k] == base[k]
}

impl<'a> ChkInstance<'a> {
    /// The materialized schema of this instance: the definition's formal
    /// parameters plus the implicit meta-parameters, plus the retry
    /// parameters when the instance retries. Invoked once, at construction.
    #[verifier::rlimit(80)]
    pub fn materialize_formal_params(&mut self)
        requires
            old(self).fn_def.formal_params.wf(),
        ensures
            *final(self) == (ChkInstance {
                materialized_formal_params: final(self).materialized_formal_params,
                ..*old(self)
            }),
            final(self).materialized_formal_params matches Some(m) && materialized_ok(
                old(self).fn_def.formal_params.as_map(),
                old(self).is_retrying,
                m,
            ),
    {
        let ghost base = self.fn_def.formal_params.as_map();
        let mut fps = duplicate_formal_params(&self.fn_def.formal_params);
        proof {
            assert(fps.as_map() =~= base);
            lemma_implicit_param_names_distinct();
        }
        let p_title = FParamBuilder::new("title").pk_string().not_required().build();
        let ghost g_title = p_title;
        fps.insert(String::from_str("title"), p_title);
        let p_on_pass = FParamBuilder::new("on_pass").pk_string().not_required().build();
        let ghost g_on_pass = p_on_pass;
        fps.insert(String::from_str("on_pass"), p_on_pass);
        let p_on_fail = FParamBuilder::new("on_fail").pk_string().not_required().build();
        let ghost g_on_fail = p_on_fail;
        fps.insert(String::from_str("on_fail"), p_on_fail);
        let p_on_error = FParamBuilder::new("on_error").pk_string().not_required().build();
        let ghost g_on_error = p_on_error;
        fps.insert(String::from_str("on_error"), p_on_error);
        let p_on_init = FParamBuilder::new("on_init").pk_string().not_required().build();
        let ghost g_on_init = p_on_init;
        fps.insert(String::from_str("on_init"), p_on_init);
        let p_on_term = FParamBuilder::new("on_term").pk_string().not_required().build();
        let ghost g_on_term = p_on_term;
        fps.insert(String::from_str("on_term"), p_on_term);
        proof {
            assert(fps.as_map() =~= base.insert("title"@, g_title).insert(
                "on_pass"@,
                g_on_pass,
            ).insert("on_fail"@, g_on_fail).insert("on_error"@, g_on_error).insert(
                "on_init"@,
                g_on_init,
            ).insert("on_term"@, g_on_term));
        }
        if self.is_retrying {
            let p_retries = FParamBuilder::new("retries").pk_int().required().build();
            let ghost g_retries = p_retries;
            fps.insert(String::from_str("retries"), p_retries);
            let p_retry_delay = FParamBuilder::new("retry_delay").pk_duration().required().build();
            let ghost g_retry_delay = p_retry_delay;
            fps.insert(String::from_str("retry_delay"), p_retry_delay);
            proof {
                assert(fps.as_map() =~= base.insert("title"@, g_title).insert(
                    "on_pass"@,
                    g_on_pass,
                ).insert("on_fail"@, g_on_fail).insert("on_error"@, g_on_error).insert(
                    "on_init"@,
                    g_on_init,
                ).insert("on_term"@, g_on_term).insert("retries"@, g_retries).insert(
                    "retry_delay"@,
                    g_retry_delay,
                ));
                assert(materialized_ok(base, self.is_retrying, fps));
            }
        } else {
            proof {
                assert(materialized_ok(base, self.is_retrying, fps));
            }
        }
        self.materialized_formal_params = Some(fps);
    }
}

/// What running one check produced: a boolean verdict or an execution
/// error, the captured output of a shell command if one ran, and, for a
/// group, the children's results.
#[derive(Debug, PartialEq)]
pub struct ChkResult {
    pub result: Result<bool, String>,
    pub process_out: Option<ChkProcessOut>,
    pub children_results: Option<Vec<ChkResult>>,
}

impl ChkResult {
    /// The check ran to a boolean verdict and it was true.
    pub fn is_check_pass(&self) -> (r: bool)
        ensures
            r == (self.result == Result::<bool, String>::Ok(true)),
    {
        match self.result.as_ref() {
            Ok(r) => *r,
            Err(_) => false,
        }
    }

    /// The check ran to a boolean verdict and it was false.
    pub fn is_check_fail(&self) -> (r: bool)
        ensures
            r == (self.result == Result::<bool, String>::Ok(false)),
    {
        match self.result.as_ref() {
            Ok(r) => !*r,
            Err(_) => false,
        }
    }

    /// The check could not run to a verdict.
    pub fn is_check_error(&self) -> (r: bool)
        ensures
            r == (self.result is Err),
    {
        self.result.is_err()
    }
}

/// The captured output of a shell command.
#[derive(Debug, PartialEq)]
pub struct ChkProcessOut {
    pub stdout: Option<String>,
    pub stderr: Option<String>,
    pub exit_code: Option<i32>,
}

impl Default for ChkProcessOut {
    fn default() -> (r: Self)
        ensures
            r.stdout is None,
            r.stderr is None,
            r.exit_code is None,
    {
        ChkProcessOut { stdout: None, stderr: None, exit_code: None }
    }
}

/// A finished check paired with the outcome its run produced.
pub struct FinishedCheck<'a> {
    pub instance: ChkInstance<'a>,
    pub result: ChkResult,
}

impl<'a> FinishedCheck<'a> {
    pub fn new(instance: ChkInstance<'a>, result: ChkResult) -> (r: Self)
        ensures
            r.instance == instance,
            r.result == result,
    {
        FinishedCheck { instance, result }
    }
}

/// The run context: the ordered log of lifecycle events the run emits, and
/// global configuration values. The log is handed to the listener by the
/// surrounding program; its order is exactly emission order. A ghost log
/// additionally records every hook the engine hands to the runner, so the
/// hook ordering of a run can be stated.
pub struct RunEnv {
    pub events: Vec<ChkLifecycleEvent>,
    pub global_config: ChkActualParams,
    /// Which instance ran which hook, in order (ghost).
    pub hook_log: Ghost<Seq<(ChkInstId, Seq<char>)>>,
}

impl RunEnv {
    pub fn new() -> (r: Self)
        ensures
            r.events@.len() == 0,
            r.global_config@.len() == 0,
            r.hook_log@ == Seq::<(ChkInstId, Seq<char>)>::empty(),
    {
        RunEnv {
            events: Vec::new(),
            global_config: StrMap::new(),
            hook_log: Ghost(Seq::empty()),
        }
    }

    /// Appends one event to the log.
    pub fn emit(&mut self, event: ChkLifecycleEvent)
        ensures
            final(self).events@ == old(self).events@.push(event),
            final(self).global_config == old(self).global_config,
            final(self).hook_log == old(self).hook_log,
    {
        self.events.push(event);
    }
}

impl Default for RunEnv {
    fn default() -> (r: Self)
        ensures
            r.events@.len() == 0,
            r.global_config@.len() == 0,
            r.hook_log@ == Seq::<(ChkInstId, Seq<char>)>::empty(),
    {
        RunEnv::new()
    }
}

/// Builds a check instance by hand: the registry and compiler are the usual
/// source of instances, this is for tests and embedders.
pub struct ChkInstanceBuilder<'a> {
    pub title: Option<String>,
    pub check_def: &'a ChkDef,
    pub actual_params: ChkActualParams,
    pub children: Vec<ChkInstance<'a>>,
    pub negated: bool,
    pub is_retrying: bool,
    pub instance_id: usize,
    pub is_query: bool,
}

impl<'a> ChkInstanceBuilder<'a> {
    pub fn new(check_def: &'a ChkDef) -> (r: Self)
        ensures
            r.title is None,
            r.check_def == check_def,
            r.actual_params@.len() == 0,
            r.actual_params.wf(),
            r.children@.len() == 0,
            r.negated == false,
            r.is_retrying == false,
            r.instance_id == crate::FIRST_INSTANCE_ID,
            r.is_query == false,
    {
        ChkInstanceBuilder {
            title: None,
            check_def,
            actual_params: StrMap::new(),
            children: Vec::new(),
            negated: false,
            is_retrying: false,
            instance_id: crate::FIRST_INSTANCE_ID,
            is_query: false,
        }
    }

    pub fn title(self, title: Option<String>) -> (r: Self)
        ensures
            r == (ChkInstanceBuilder { title, ..self }),
    {
        ChkInstanceBuilder { title, ..self }
    }

    pub fn param(self, name: &str, value: ChkActualParam) -> (r: Self)
        requires
            self.actual_params.wf(),
        ensures
            r.actual_params.wf(),
            r.actual_params.as_map() == self.actual_params.as_map().insert(name@, value),
            r == (ChkInstanceBuilder { actual_params: r.actual_params, ..self }),
    {
        let mut actual_params = self.actual_params;
        actual_params.insert(String::from_str(name), value);
        ChkInstanceBuilder { actual_params, ..self }
    }

    pub fn param_string(self, name: &str, value: &str) -> (r: Self)
        requires
            self.actual_params.wf(),
        ensures
            r.actual_params.wf(),
            r.actual_params.contains_key_spec(name@),
            r.actual_params.as_map()[name@].name@ == name@,
            r.actual_params.as_map()[name@].value
                == crate::params::ChkParamInternalValue::PkString(
                r.actual_params.as_map()[name@].value->PkString_0,
            ),
            r.actual_params.as_map()[name@].value->PkString_0@ == value@,
            forall|q: Seq<char>|
                #![auto]
                r.actual_params.contains_key_spec(q) <==> (self.actual_params.contains_key_spec(q)
                    || q == name@),
            r == (ChkInstanceBuilder { actual_params: r.actual_params, ..self }),
    {
        let name_s = String::from_str(name);
        let p = ChkActualParam::new_string(
            name_s,
            String::from_str(value),
            ContentAddress::new(0, 0),
        );
        let mut actual_params = self.actual_params;
        actual_params.insert(String::from_str(name), p);
        ChkInstanceBuilder { actual_params, ..self }
    }

    pub fn param_int(self, name: &str, value: i64) -> (r: Self)
        requires
            self.actual_params.wf(),
        ensures
            r.actual_params.wf(),
            r.actual_params.contains_key_spec(name@),
            r.actual_params.as_map()[name@].name@ == name@,
            r.actual_params.as_map()[name@].value == crate::params::ChkParamInternalValue::PkInt(
                value,
            ),
            forall|q: Seq<char>|
                #![auto]
                r.actual_params.contains_key_spec(q) <==> (self.actual_params.contains_key_spec(q)
                    || q == name@),
            r == (ChkInstanceBuilder { actual_params: r.actual_params, ..self }),
    {
        let name_s = String::from_str(name);
        let p = ChkActualParam::new_int(name_s, value, ContentAddress::new(0, 0));
        let mut actual_params = self.actual_params;
        actual_params.insert(String::from_str(name), p);
        ChkInstanceBuilder { actual_params, ..self }
    }

    pub fn param_bool(self, name: &str, value: bool) -> (r: Self)
        requires
            self.actual_params.wf(),
        ensures
            r.actual_params.wf(),
            r.actual_params.contains_key_spec(name@),
            r.actual_params.as_map()[name@].name@ == name@,
            r.actual_params.as_map()[name@].value == crate::params::ChkParamInternalValue::PkBool(
                value,
            ),
            forall|q: Seq<char>|
                #![auto]
                r.actual_params.contains_key_spec(q) <==> (self.actual_params.contains_key_spec(q)
                    || q == name@),
            r == (ChkInstanceBuilder { actual_params: r.actual_params, ..self }),
    {
        let name_s = String::from_str(name);
        let p = ChkActualParam::new_bool(name_s, value, ContentAddress::new(0, 0));
        let mut actual_params = self.actual_params;
        actual_params.insert(String::from_str(name), p);
        ChkInstanceBuilder { actual_params, ..self }
    }

    /// Adds every entry of `params` to the actual parameters, replacing
    /// entries with the same names.
    pub fn with_params(self, params: ChkActualParams) -> (r: Self)
        requires
            self.actual_params.wf(),
        ensures
            r.actual_params.wf(),
            forall|q: Seq<char>|
                #![auto]
                r.actual_params.contains_key_spec(q) <==> (self.actual_params.contains_key_spec(q)
                    || params.contains_key_spec(q)),
            forall|q: Seq<char>|
                #![auto]
                params.contains_key_spec(q) && params.wf() ==> r.actual_params.as_map()[q]
                    == params.as_map()[q],
            r == (ChkInstanceBuilder { actual_params: r.actual_params, ..self }),
    {
        let mut actual_params = self.actual_params;
        let n = params.len();
        let mut i: usize = 0;
        while i < n
            invariant
                i <= n,
                n == params@.len(),
                actual_params.wf(),
                forall|q: Seq<char>|
                    #![auto]
                    actual_params.contains_key_spec(q) <==> (self.actual_params.contains_key_spec(
                        q,
                    ) || exists|j: int| 0 <= j < i && params@[j].0 == q),
                forall|j: int|
                    #![auto]
                    0 <= j < i && (forall|l: int| j < l < i ==> params@[l].0 != params@[j].0)
                        ==> actual_params.as_map()[params@[j].0] == params@[j].1,
            decreases n - i,
        {
            let entry = params.entry_at(i);
            let k = entry.0.clone();
            let v = entry.1.clone();
            proof {
                crate::params::lemma_cloned_actual_param(params@[i as int].1, v);
            }
            actual_params.insert(k, v);
            i = i + 1;
        }
        proof {
            if params.wf() {
                assert forall|q: Seq<char>|
                    #![auto]
                    params.contains_key_spec(q) implies actual_params.as_map()[q]
                    == params.as_map()[q] by {
                    let j = crate::strmap::entry_index_of(params@, q);
                    assert(0 <= j < params@.len() && params@[j].0 == q);
                    assert(forall|l: int| j < l < params@.len() ==> params@[l].0 != params@[j].0);
                }
            }
            assert forall|q: Seq<char>|
                #![auto]
                actual_params.contains_key_spec(q) <==> (self.actual_params.contains_key_spec(q)
                    || params.contains_key_spec(q)) by {
                if exists|j: int| 0 <= j < params@.len() && params@[j].0 == q {
                }
            }
        }
        ChkInstanceBuilder { actual_params, ..self }
    }

    pub fn add_child(self, child: ChkInstance<'a>) -> (r: Self)
        ensures
            r.children@ == self.children@.push(child),
            r == (ChkInstanceBuilder { children: r.children, ..self }),
    {
        let mut children = self.children;
        children.push(child);
        ChkInstanceBuilder { children, ..self }
    }

    pub fn children(self, children: Vec<ChkInstance<'a>>) -> (r: Self)
        ensures
            r == (ChkInstanceBuilder { children, ..self }),
    {
        ChkInstanceBuilder { children, ..self }
    }

    pub fn instance_id(self, instance_id: usize) -> (r: Self)
        ensures
            r == (ChkInstanceBuilder { instance_id, ..self }),
    {
        ChkInstanceBuilder { instance_id, ..self }
    }

    pub fn negated(self, val: bool) -> (r: Self)
        ensures
            r == (ChkInstanceBuilder { negated: val, ..self }),
    {
        ChkInstanceBuilder { negated: val, ..self }
    }

    pub fn retrying(self) -> (r: Self)
        ensures
            r == (ChkInstanceBuilder { is_retrying: true, ..self }),
    {
        ChkInstanceBuilder { is_retrying: true, ..self }
    }

    pub fn query(self) -> (r: Self)
        ensures
            r == (ChkInstanceBuilder { is_query: true, ..self }),
    {
        ChkInstanceBuilder { is_query: true, ..self }
    }

    pub fn build(self) -> (r: ChkInstance<'a>)
        ensures
            r.title == self.title,
            r.fn_def == self.check_def,
            r.actual_params == self.actual_params,
            r.materialized_formal_params is None,
            r.children == self.children,
            r.negated == self.negated,
            r.is_retrying == self.is_retrying,
            r.instance_id == self.instance_id,
            r.content_address == (ContentAddress { start: 0, end: 0 }),
            r.is_query == self.is_query,
    {
        ChkInstance {
            title: self.title,
            fn_def: self.check_def,
            actual_params: self.actual_params,
            materialized_formal_params: None,
            children: self.children,
            negated: self.negated,
            is_retrying: self.is_retrying,
            instance_id: self.instance_id,
            content_address: ContentAddress::default(),
            is_query: self.is_query,
        }
    }
}

} // verus!
