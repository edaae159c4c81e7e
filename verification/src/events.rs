//! The lifecycle event protocol: the ordered stream of events a run emits,
//! and the per-instance descriptions sent ahead of a file's events so a
//! listener can render results as they arrive.
use vstd::prelude::*;

use std::collections::HashMap;

use crate::data::{duplicate_formal_params, ChkFormalParams, ParsedDuration};
use crate::instance::{forest_ids, tree_ids, ChkInstance, ChkResult, RunEnv};
use crate::params::{duplicate_actual_params, ChkActualParams};
use crate::ChkInstId;

verus! {

broadcast use vstd::std_specs::hash::group_hash_axioms;

/// Events describing run progress, in emission order. Per instance, a
/// `CheckStart` always precedes the single verdict event
/// (`CheckPass`/`CheckFail`/`CheckError`), and a `CheckFinish` (with the
/// elapsed time in nanoseconds) closes the instance's scope. A retry waits
/// between attempts are bracketed by `CheckRetrySleep` and `CheckRetry`.
/// `Init` precedes all of a file's instance events and carries a
/// description of every instance keyed by id; `Term` follows them all.
#[derive(Debug)]
pub enum ChkLifecycleEvent {
    Init(ChkDescMap, Option<String>),
    Term(Option<String>),
    CheckRetry(ChkInstId, u64),
    CheckRetrySleep(ChkInstId, ParsedDuration),
    CheckStart(ChkInstId),
    CheckPass(ChkInstId),
    CheckFail(ChkInstId),
    CheckError(ChkInstId),
    CheckFinish(ChkInstId, u64),
}

/// A listener-side record of one verdict.
#[derive(Clone, Copy, PartialEq, Eq, Structural, Debug)]
pub enum ChkDescResult {
    Pass,
    Fail,
    Error,
}

/// A description of a check function: its name and formal parameters.
#[derive(Debug)]
pub struct ChkFnDesc {
    pub fn_name: String,
    pub formal_params: ChkFormalParams,
}

/// A description of one instance, sufficient for a listener to render it:
/// the function, the actual parameters, the children's ids and the
/// negation/retry flags. The listener may record the observed result in its
/// own copy.
#[derive(Debug)]
pub struct ChkDesc {
    pub instance_id: ChkInstId,
    pub fn_desc: ChkFnDesc,
    pub actual_params: ChkActualParams,
    pub children: Vec<ChkInstId>,
    pub negated: bool,
    pub is_group: bool,
    pub is_retrying: bool,
    pub title: Option<String>,
    /// Whether the instance stands at the top level of its file.
    pub is_root: bool,
    pub result: Option<ChkDescResult>,
}

impl ChkDesc {
    pub fn update_result(&mut self, new_result: ChkDescResult)
        ensures
            *final(self) == (ChkDesc { result: Some(new_result), ..*old(self) }),
    {
        self.result = Some(new_result);
    }
}

/// Instance descriptions keyed by instance id.
pub type ChkDescMap = HashMap<ChkInstId, ChkDesc>;

/// Whether `d` describes the instance `i`.
pub open spec fn desc_matches(i: ChkInstance, d: ChkDesc, is_root: bool) -> bool {
    &&& d.instance_id == i.instance_id
    &&& d.fn_desc.fn_name@ == i.fn_def.name@
    &&& d.fn_desc.formal_params@ == i.fn_def.formal_params@
    &&& d.actual_params@ == i.actual_params@
    &&& d.children@.len() == i.children@.len()
    &&& forall|j: int|
        0 <= j < d.children@.len() ==> d.children@[j] == i.children@[j].instance_id
    &&& d.negated == i.negated
    &&& d.is_group == i.fn_def.is_group
    &&& d.is_retrying == i.is_retrying
    &&& d.title == i.title
    &&& d.is_root == is_root
    &&& d.result is None
}

/// Whether `m` holds a matching description of every instance in the tree
/// rooted at `i`.
pub open spec fn descs_cover_tree(m: Map<ChkInstId, ChkDesc>, i: ChkInstance, is_root: bool) -> bool
    decreases i,
{
    &&& m.contains_key(i.instance_id)
    &&& desc_matches(i, m[i.instance_id], is_root)
    &&& forall|j: int|
        0 <= j < i.children@.len() ==> descs_cover_tree(m, #[trigger] i.children@[j], false)
}

/// Builds one instance's description (children ids, parameter copies).
fn desc_of_instance(i: &ChkInstance, is_root: bool) -> (d: ChkDesc)
    ensures
        desc_matches(*i, d, is_root),
{
    let mut child_ids: Vec<ChkInstId> = Vec::new();
    let n = i.children.len();
    let mut j: usize = 0;
    while j < n
        invariant
            j <= n,
            n == i.children@.len(),
            child_ids@.len() == j,
            forall|l: int| 0 <= l < j ==> child_ids@[l] == i.children@[l].instance_id,
        decreases n - j,
    {
        child_ids.push(i.children[j].instance_id);
        j = j + 1;
    }
    let formal_params = duplicate_formal_params(&i.fn_def.formal_params);
    let actual_params = duplicate_actual_params(&i.actual_params);
    let title = match &i.title {
        Some(t) => Some(t.clone()),
        None => None,
    };
    ChkDesc {
        instance_id: i.instance_id,
        fn_desc: ChkFnDesc { fn_name: i.fn_def.name.clone(), formal_params },
        actual_params,
        children: child_ids,
        negated: i.negated,
        is_group: i.fn_def.is_group,
        is_retrying: i.is_retrying,
        title,
        is_root,
        result: None,
    }
}

/// A log once written stays in place: an extension keeps every earlier
/// position.
pub proof fn lemma_log_extension<T>(pre: Seq<T>, post: Seq<T>)
    requires
        pre.is_prefix_of(post),
    ensures
        forall|q: int| 0 <= q < pre.len() ==> post[q] == pre[q],
{
    assert forall|q: int| 0 <= q < pre.len() implies post[q] == pre[q] by {
        assert(post.subrange(0, pre.len() as int)[q] == post[q]);
    }
}

/// A description map keeps covering a tree when the map changes only away
/// from the tree's ids.
proof fn lemma_cover_preserved(
    m1: Map<ChkInstId, ChkDesc>,
    m2: Map<ChkInstId, ChkDesc>,
    c: ChkInstance,
    is_root: bool,
)
    requires
        descs_cover_tree(m1, c, is_root),
        forall|k: ChkInstId|
            #![trigger tree_ids(c).contains(k)]
            tree_ids(c).contains(k) ==> m2.contains_key(k) && m2[k] == m1[k],
    ensures
        descs_cover_tree(m2, c, is_root),
    decreases c,
{
    assert(tree_ids(c)[tree_ids(c).len() - 1] == c.instance_id);
    assert(tree_ids(c).contains(c.instance_id));
    assert forall|j: int| 0 <= j < c.children@.len() implies descs_cover_tree(
        m2,
        #[trigger] c.children@[j],
        false,
    ) by {
        crate::instance::lemma_child_ids_in_tree(c, j);
        assert forall|k: ChkInstId|
            #![trigger tree_ids(c.children@[j]).contains(k)]
            tree_ids(c.children@[j]).contains(k) implies m2.contains_key(k) && m2[k]
            == m1[k] by {
            assert(tree_ids(c).contains(k));
        }
        lemma_cover_preserved(m1, m2, c.children@[j], false);
    }
}

/// Adds descriptions of every instance in the tree rooted at `i` to `m`.
/// Requires the tree's ids to be pairwise distinct, which the compiler's id
/// assignment guarantees.
fn descs_from_tree(i: &ChkInstance, m: &mut ChkDescMap, is_root: bool)
    requires
        forall|p: int, q: int|
            0 <= p < q < tree_ids(*i).len() ==> tree_ids(*i)[p] != tree_ids(*i)[q],
    ensures
        forall|k: ChkInstId|
            #![trigger final(m)@.dom().contains(k)]
            final(m)@.contains_key(k) <==> (old(m)@.contains_key(k) || tree_ids(*i).contains(k)),
        forall|k: ChkInstId|
            #![trigger old(m)@.dom().contains(k)]
            old(m)@.contains_key(k) && !tree_ids(*i).contains(k) ==> final(m)@[k] == old(m)@[k],
        descs_cover_tree(final(m)@, *i, is_root),
    decreases *i,
{
    let n = i.children.len();
    let mut j: usize = 0;
    while j < n
        invariant
            j <= n,
            n == i.children@.len(),
            forall|p: int, q: int|
                0 <= p < q < tree_ids(*i).len() ==> tree_ids(*i)[p] != tree_ids(*i)[q],
            forall|k: ChkInstId|
                #![trigger m@.dom().contains(k)]
                m@.contains_key(k) <==> (old(m)@.contains_key(k) || forest_ids(
                    i.children@.take(j as int),
                ).contains(k)),
            forall|k: ChkInstId|
                #![trigger old(m)@.dom().contains(k)]
                old(m)@.contains_key(k) && !forest_ids(i.children@.take(j as int)).contains(k)
                    ==> m@.contains_key(k) && m@[k] == old(m)@[k],
            forall|l: int| 0 <= l < j ==> descs_cover_tree(m@, #[trigger] i.children@[l], false),
        decreases n - j,
    {
        let ghost m_before = m@;
        let ghost jj = j as int;
        let ghost child = i.children@[jj];
        let ghost prefix = forest_ids(i.children@.take(jj));
        proof {
            crate::instance::lemma_tree_nodup_child(*i, jj);
        }
        descs_from_tree(&i.children[j], m, false);
        proof {
            crate::instance::lemma_forest_ids_take_step(i.children@, jj);
            crate::instance::lemma_seq_concat_contains(prefix, tree_ids(child));
            assert(forest_ids(i.children@.take(jj + 1)) == prefix + tree_ids(child));
            assert forall|k: ChkInstId|
                #![trigger m@.dom().contains(k)]
                m@.contains_key(k) <==> (old(m)@.contains_key(k) || forest_ids(
                    i.children@.take(jj + 1),
                ).contains(k)) by {
                assert(m@.contains_key(k) <==> (m_before.contains_key(k) || tree_ids(
                    i.children@[jj],
                ).contains(k)));
                assert(m_before.contains_key(k) <==> (old(m)@.contains_key(k) || prefix.contains(
                    k,
                )));
            }
            assert forall|k: ChkInstId|
                #![trigger old(m)@.dom().contains(k)]
                old(m)@.contains_key(k) && !forest_ids(i.children@.take(jj + 1)).contains(
                    k,
                ) implies m@.contains_key(k) && m@[k] == old(m)@[k] by {
                assert(!prefix.contains(k) && !tree_ids(i.children@[jj]).contains(k));
                assert(m_before.contains_key(k) && m_before[k] == old(m)@[k]);
                assert(m@.contains_key(k) <==> (m_before.contains_key(k) || tree_ids(
                    i.children@[jj],
                ).contains(k)));
            }
            // Earlier children's coverage is untouched: their ids live in the
            // prefix, which is disjoint from this child's ids.
            assert forall|l: int| 0 <= l < jj implies descs_cover_tree(
                m@,
                #[trigger] i.children@[l],
                false,
            ) by {
                crate::instance::lemma_tree_in_forest_prefix(i.children@, l, jj);
                assert forall|k: ChkInstId|
                    #![auto]
                    tree_ids(i.children@[l]).contains(k) implies m@.contains_key(k) && m@[k]
                    == m_before[k] by {
                    assert(prefix.contains(k));
                    assert(!tree_ids(child).contains(k));
                    assert(m_before.contains_key(k));
                }
                lemma_cover_preserved(m_before, m@, i.children@[l], false);
            }
        }
        j = j + 1;
    }
    let ghost m_loop = m@;
    let d = desc_of_instance(i, is_root);
    m.insert(i.instance_id, d);
    proof {
        assert(i.children@.take(n as int) =~= i.children@);
        crate::instance::lemma_tree_nodup_root(*i);
        assert(tree_ids(*i) =~= forest_ids(i.children@) + seq![i.instance_id]);
        crate::instance::lemma_seq_concat_contains(
            forest_ids(i.children@),
            seq![i.instance_id],
        );
        assert(seq![i.instance_id].contains(i.instance_id));
        assert forall|l: int| 0 <= l < n implies descs_cover_tree(
            m@,
            #[trigger] i.children@[l],
            false,
        ) by {
            crate::instance::lemma_tree_in_forest_prefix(i.children@, l, n as int);
            assert forall|k: ChkInstId|
                #![auto]
                tree_ids(i.children@[l]).contains(k) implies m@.contains_key(k) && m@[k]
                == m_loop[k] by {
                assert(forest_ids(i.children@.take(n as int)).contains(k));
                assert(k != i.instance_id);
            }
            lemma_cover_preserved(m_loop, m@, i.children@[l], false);
        }
        assert(descs_cover_tree(m@, *i, is_root));
    }
}

/// Builds the description map of a file's instance trees, walking each tree
/// recursively. Requires all ids in the forest to be pairwise distinct,
/// which the compiler's id assignment guarantees.
pub fn desc_from_instances(instances: &Vec<ChkInstance>) -> (m: ChkDescMap)
    requires
        forall|p: int, q: int|
            0 <= p < q < forest_ids(instances@).len() ==> forest_ids(instances@)[p] != forest_ids(
                instances@,
            )[q],
    ensures
        forall|l: int|
            0 <= l < instances@.len() ==> descs_cover_tree(m@, #[trigger] instances@[l], true),
        forall|k: ChkInstId|
            #![trigger m@.dom().contains(k)]
            m@.contains_key(k) <==> forest_ids(instances@).contains(k),
{
    let mut m: ChkDescMap = HashMap::new();
    let n = instances.len();
    let mut j: usize = 0;
    while j < n
        invariant
            j <= n,
            n == instances@.len(),
            forall|p: int, q: int|
                0 <= p < q < forest_ids(instances@).len() ==> forest_ids(instances@)[p]
                    != forest_ids(instances@)[q],
            forall|k: ChkInstId|
                #![trigger m@.dom().contains(k)]
                m@.contains_key(k) <==> forest_ids(instances@.take(j as int)).contains(k),
            forall|l: int| 0 <= l < j ==> descs_cover_tree(m@, #[trigger] instances@[l], true),
        decreases n - j,
    {
        let ghost m_before = m@;
        let ghost jj = j as int;
        let ghost root = instances@[jj];
        let ghost prefix = forest_ids(instances@.take(jj));
        proof {
            crate::instance::lemma_forest_nodup_member(instances@, jj);
        }
        descs_from_tree(&instances[j], &mut m, true);
        proof {
            crate::instance::lemma_forest_ids_take_step(instances@, jj);
            crate::instance::lemma_seq_concat_contains(prefix, tree_ids(root));
            assert(forest_ids(instances@.take(jj + 1)) == prefix + tree_ids(root));
            assert forall|k: ChkInstId|
                #![trigger m@.dom().contains(k)]
                m@.contains_key(k) <==> forest_ids(instances@.take(jj + 1)).contains(k) by {
                assert(m@.contains_key(k) <==> (m_before.contains_key(k) || tree_ids(
                    instances@[jj],
                ).contains(k)));
                assert(m_before.contains_key(k) <==> prefix.contains(k));
            }
            assert forall|l: int| 0 <= l < jj implies descs_cover_tree(
                m@,
                #[trigger] instances@[l],
                true,
            ) by {
                crate::instance::lemma_tree_in_forest_prefix(instances@, l, jj);
                assert forall|k: ChkInstId|
                    #![auto]
                    tree_ids(instances@[l]).contains(k) implies m@.contains_key(k) && m@[k]
                    == m_before[k] by {
                    assert(prefix.contains(k));
                    assert(!tree_ids(root).contains(k));
                    assert(m_before.contains_key(k));
                }
                lemma_cover_preserved(m_before, m@, instances@[l], true);
            }
        }
        j = j + 1;
    }
    proof {
        assert(instances@.take(n as int) =~= instances@);
    }
    m
}

impl RunEnv {
    /// Opens a timing scope for one instance; see [`ChkEventScope::new`].
    pub fn new_check_scope(&mut self, inst_id: ChkInstId, start_nanos: u64) -> (r: ChkEventScope)
        ensures
            final(self).events@ == old(self).events@.push(ChkLifecycleEvent::CheckStart(inst_id)),
            final(self).global_config == old(self).global_config,
            final(self).hook_log == old(self).hook_log,
            r.chk_id == inst_id,
            r.start_nanos == start_nanos,
    {
        ChkEventScope::new(self, inst_id, start_nanos)
    }
}

/// A timing scope for one instance: opening it emits `CheckStart`; the
/// engine emits the verdict through it and closes it with `finish`, which
/// emits `CheckFinish` with the elapsed time. The engine closes every scope
/// it opens, on every path.
pub struct ChkEventScope {
    pub chk_id: ChkInstId,
    pub start_nanos: u64,
}

impl ChkEventScope {
    pub fn new(run_env: &mut RunEnv, chk_id: ChkInstId, start_nanos: u64) -> (r: Self)
        ensures
            final(run_env).events@ == old(run_env).events@.push(
                ChkLifecycleEvent::CheckStart(chk_id),
            ),
            final(run_env).global_config == old(run_env).global_config,
            final(run_env).hook_log == old(run_env).hook_log,
            r.chk_id == chk_id,
            r.start_nanos == start_nanos,
    {
        run_env.emit(ChkLifecycleEvent::CheckStart(chk_id));
        ChkEventScope { chk_id, start_nanos }
    }

    /// The verdict event for `r`: pass for `Ok(true)`, fail for
    /// `Ok(false)`, error for `Err`.
    pub open spec fn result_event(chk_id: ChkInstId, r: ChkResult) -> ChkLifecycleEvent {
        match r.result {
            Ok(b) => if b {
                ChkLifecycleEvent::CheckPass(chk_id)
            } else {
                ChkLifecycleEvent::CheckFail(chk_id)
            },
            Err(_) => ChkLifecycleEvent::CheckError(chk_id),
        }
    }

    /// Emits exactly one verdict event for `r`.
    pub fn emit_result(&self, run_env: &mut RunEnv, r: &ChkResult)
        ensures
            final(run_env).events@ == old(run_env).events@.push(
                Self::result_event(self.chk_id, *r),
            ),
            final(run_env).global_config == old(run_env).global_config,
            final(run_env).hook_log == old(run_env).hook_log,
    {
        match &r.result {
            Ok(bool_result) => {
                if *bool_result {
                    run_env.emit(ChkLifecycleEvent::CheckPass(self.chk_id));
                } else {
                    run_env.emit(ChkLifecycleEvent::CheckFail(self.chk_id));
                }
            },
            Err(_) => {
                run_env.emit(ChkLifecycleEvent::CheckError(self.chk_id));
            },
        }
    }

    /// Closes the scope: emits `CheckFinish` with the elapsed time.
    pub fn finish(self, run_env: &mut RunEnv, end_nanos: u64)
        ensures
            final(run_env).events@ == old(run_env).events@.push(
                ChkLifecycleEvent::CheckFinish(
                    self.chk_id,
                    if end_nanos >= self.start_nanos {
                        (end_nanos - self.start_nanos) as u64
                    } else {
                        0u64
                    },
                ),
            ),
            final(run_env).global_config == old(run_env).global_config,
            final(run_env).hook_log == old(run_env).hook_log,
    {
        let elapsed: u64 = if end_nanos >= self.start_nanos {
            end_nanos - self.start_nanos
        } else {
            0
        };
        run_env.emit(ChkLifecycleEvent::CheckFinish(self.chk_id, elapsed));
    }
}

} // verus!
