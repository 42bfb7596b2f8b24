//! Statements of the guarantees that hold across several operations of the
//! context, proved once and for all over its abstract state.

use crate::context::SemView;
use crate::ids::DeclId;
use crate::ids::FunctionInfoId;
use crate::ids::LexicalScopeId;
use crate::ids::NodeId;
use vstd::prelude::*;

verus! {

/// In a fresh context neither the global function nor the global scope
/// exists yet: both lookups return none until the first creation.
pub proof fn lemma_fresh_context_has_no_global(v: SemView)
    requires
        v == SemView::empty(),
    ensures
        v.global_function_id() is None,
        v.global_scope_id() is None,
{
}

/// The first function created in a context receives the reserved global
/// identity, and from then on the global function exists: `new_function`
/// hands out the identity equal to the number of functions before the call,
/// so on a context without functions that identity is 0.
pub proof fn lemma_first_function_is_global(pre: SemView, post: SemView, id: FunctionInfoId)
    requires
        pre.funcs.len() == 0,
        id.0 == pre.funcs.len(),
        post.funcs.len() == pre.funcs.len() + 1,
    ensures
        id.is_global(),
        post.global_function_id() == Some(id),
{
}

/// The first scope created in a context receives the reserved global
/// identity, and from then on the global scope exists.
pub proof fn lemma_first_scope_is_global(pre: SemView, post: SemView, id: LexicalScopeId)
    requires
        pre.scopes.len() == 0,
        id.0 == pre.scopes.len(),
        post.scopes.len() == pre.scopes.len() + 1,
    ensures
        id.is_global(),
        post.global_scope_id() == Some(id),
{
}

/// Every scope identity stored in a function's scope list addresses a scope
/// of the context, and that scope names this very function as its owner. So
/// each entry of the list can be given to `scope()` and reports the function
/// it was read from as its `parent_function`.
pub proof fn lemma_function_scopes_retrievable(v: SemView, f: FunctionInfoId, i: int)
    requires
        v.wf(),
        v.valid_function_id(f),
        0 <= i < v.funcs[f.0 as int].scopes.len(),
    ensures
        v.valid_scope_id(v.funcs[f.0 as int].scopes[i]),
        v.scopes[v.funcs[f.0 as int].scopes[i].0 as int].parent_function == f,
{
    assert(v.func_wf(f.0 as int));
}

/// Declaration creation preserves creation order: appending one declaration
/// identity to a scope's list leaves every earlier entry where it was and
/// puts the new one at the end, so N creations in a scope yield a list of
/// length N in exactly creation order.
pub proof fn lemma_decl_order_preserved(pre: Seq<DeclId>, post: Seq<DeclId>, id: DeclId)
    requires
        post == pre.push(id),
    ensures
        post.len() == pre.len() + 1,
        forall|j: int| 0 <= j < pre.len() ==> post[j] == pre[j],
        post[post.len() - 1] == id,
{
}

/// Recording a resolution for the same node twice overwrites rather than
/// duplicates: the second insertion with the same key leaves the map as the
/// first did when the values agree, and never grows it. This holds for each
/// of the cross-reference maps, whatever it resolves nodes to.
pub proof fn lemma_record_same_node_overwrites<V>(m: Map<NodeId, V>, node: NodeId, v1: V, v2: V)
    requires
        m.dom().finite(),
    ensures
        m.insert(node, v1).insert(node, v2) == m.insert(node, v2),
        m.insert(node, v1).insert(node, v2).len() == m.insert(node, v1).len(),
        m.contains_key(node) ==> m.insert(node, v1).len() == m.len(),
        !m.contains_key(node) ==> m.insert(node, v1).len() == m.len() + 1,
{
    broadcast use vstd::set::axiom_set_insert_len;

    assert(m.insert(node, v1).insert(node, v2) =~= m.insert(node, v2));
    assert(m.insert(node, v1).dom() =~= m.dom().insert(node));
    assert(m.insert(node, v1).insert(node, v2).dom() =~= m.insert(node, v1).dom().insert(node));
}

} // verus!
