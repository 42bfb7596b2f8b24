//! The entity store and tree-construction API.
//!
//! `SemContext` owns three append-only arenas (declarations, lexical scopes,
//! functions) addressed by the identity types of [`crate::ids`], plus three
//! cross-reference maps keyed by AST-node identity. Its abstract state is a
//! [`SemView`]; every operation's contract says exactly how the view changes,
//! and every operation preserves the well-formedness invariant
//! [`SemView::wf`].

use crate::ids::Atom;
use crate::ids::DeclId;
use crate::ids::FunctionInfoId;
use crate::ids::LexicalScopeId;
use crate::ids::NodeId;
use crate::ids::SourceId;
use crate::kinds::DeclKind;
use crate::kinds::Special;
use std::collections::HashMap;
use vstd::prelude::*;

verus! {

/// The largest number of entities one arena may hold: every identity must
/// fit the 32-bit index representation. Creation fails closed once an arena
/// has this many entries.
pub const ENTITY_LIMIT: usize = 4294967295;

/// Why a construction operation failed.
#[derive(Copy, Clone, Debug, PartialEq, Eq, Structural)]
pub enum SemError {
    /// The arena already holds `ENTITY_LIMIT` entities, so one more could
    /// not receive a representable identity.
    CapacityExceeded,
}

/// One named binding.
#[derive(Copy, Clone, Debug, PartialEq, Eq, Structural)]
pub struct Decl {
    /// The declared identifier.
    pub name: Atom,
    /// What kind of declaration it is.
    pub kind: DeclKind,
    /// If this is a special declaration, identify which one.
    pub special: Special,
    /// Set to true if this is a function initialized in this scope.
    pub function_in_scope: bool,
    /// The lexical scope the declaration was created in. Special declarations
    /// are technically unscoped, but the field still records their creation
    /// scope.
    pub scope: LexicalScopeId,
}

impl Decl {
    /// The same declaration with its function-in-scope flag set to `b`.
    pub open spec fn with_function_in_scope(self, b: bool) -> Decl {
        Decl { function_in_scope: b, ..self }
    }
}

/// One nested scope in the source-scope tree.
pub struct LexicalScope {
    /// The function owning this lexical scope.
    pub parent_function: FunctionInfoId,
    /// The enclosing lexical scope (it could be in another function).
    pub parent_scope: Option<LexicalScopeId>,
    /// All declarations made in this scope, in creation order.
    pub decls: Vec<DeclId>,
    /// Functions that must be hoisted and materialized before the rest of
    /// the scope, as identities of their AST nodes.
    pub hoisted_functions: Vec<NodeId>,
}

/// The abstract state of a [`LexicalScope`].
#[verifier::ext_equal]
pub ghost struct ScopeView {
    pub parent_function: FunctionInfoId,
    pub parent_scope: Option<LexicalScopeId>,
    pub decls: Seq<DeclId>,
    pub hoisted_functions: Seq<NodeId>,
}

impl View for LexicalScope {
    type V = ScopeView;

    open spec fn view(&self) -> ScopeView {
        ScopeView {
            parent_function: self.parent_function,
            parent_scope: self.parent_scope,
            decls: self.decls@,
            hoisted_functions: self.hoisted_functions@,
        }
    }
}

impl ScopeView {
    /// A freshly created scope: no declarations, no hoisted functions.
    pub open spec fn initial(
        parent_function: FunctionInfoId,
        parent_scope: Option<LexicalScopeId>,
    ) -> ScopeView {
        ScopeView {
            parent_function,
            parent_scope,
            decls: Seq::empty(),
            hoisted_functions: Seq::empty(),
        }
    }

    /// The same scope with one more declaration at the end.
    pub open spec fn with_decl_added(self, d: DeclId) -> ScopeView {
        ScopeView { decls: self.decls.push(d), ..self }
    }

    /// The same scope with one more hoisted function at the end.
    pub open spec fn with_hoisted_function_added(self, node: NodeId) -> ScopeView {
        ScopeView { hoisted_functions: self.hoisted_functions.push(node), ..self }
    }
}

/// One function (including the implicit top-level global function).
pub struct FunctionInfo {
    /// The function surrounding this function, none for the global function.
    pub parent_function: Option<FunctionInfoId>,
    /// The lexical scope (in the enclosing function) that lexically contains
    /// this function's definition, none for the global function.
    pub parent_scope: Option<LexicalScopeId>,
    /// True if the function is strict mode.
    pub strict: bool,
    /// All lexical scopes in this function, in creation order. The first one
    /// is the function scope.
    pub scopes: Vec<LexicalScopeId>,
    /// The implicitly declared `arguments` object, created only if used.
    pub arguments_decl: Option<DeclId>,
}

/// The abstract state of a [`FunctionInfo`].
#[verifier::ext_equal]
pub ghost struct FuncView {
    pub parent_function: Option<FunctionInfoId>,
    pub parent_scope: Option<LexicalScopeId>,
    pub strict: bool,
    pub scopes: Seq<LexicalScopeId>,
    pub arguments_decl: Option<DeclId>,
}

impl View for FunctionInfo {
    type V = FuncView;

    open spec fn view(&self) -> FuncView {
        FuncView {
            parent_function: self.parent_function,
            parent_scope: self.parent_scope,
            strict: self.strict,
            scopes: self.scopes@,
            arguments_decl: self.arguments_decl,
        }
    }
}

impl FuncView {
    /// A freshly created function: no scopes yet, no `arguments` declaration.
    pub open spec fn initial(
        parent_function: Option<FunctionInfoId>,
        parent_scope: Option<LexicalScopeId>,
        strict: bool,
    ) -> FuncView {
        FuncView {
            parent_function,
            parent_scope,
            strict,
            scopes: Seq::empty(),
            arguments_decl: None,
        }
    }

    /// The same function with one more scope at the end of its scope list.
    pub open spec fn with_scope_added(self, s: LexicalScopeId) -> FuncView {
        FuncView { scopes: self.scopes.push(s), ..self }
    }

    /// The same function with its `arguments` declaration attached.
    pub open spec fn with_arguments_decl(self, d: DeclId) -> FuncView {
        FuncView { arguments_decl: Some(d), ..self }
    }
}

/// The abstract state of a [`SemContext`]: the three arenas as sequences in
/// creation order, and the three cross-reference maps.
#[verifier::ext_equal]
pub ghost struct SemView {
    pub decls: Seq<Decl>,
    pub scopes: Seq<ScopeView>,
    pub funcs: Seq<FuncView>,
    pub ident_decls: Map<NodeId, DeclId>,
    pub node_scopes: Map<NodeId, LexicalScopeId>,
    pub require_calls: Map<NodeId, SourceId>,
}

impl SemView {
    /// The state of a freshly created context.
    pub open spec fn empty() -> SemView {
        SemView {
            decls: Seq::empty(),
            scopes: Seq::empty(),
            funcs: Seq::empty(),
            ident_decls: Map::empty(),
            node_scopes: Map::empty(),
            require_calls: Map::empty(),
        }
    }

    /// Whether a declaration identity addresses an entity of this context.
    pub open spec fn valid_decl_id(self, d: DeclId) -> bool {
        d.0 < self.decls.len()
    }

    /// Whether a scope identity addresses an entity of this context.
    pub open spec fn valid_scope_id(self, s: LexicalScopeId) -> bool {
        s.0 < self.scopes.len()
    }

    /// Whether a function identity addresses an entity of this context.
    pub open spec fn valid_function_id(self, f: FunctionInfoId) -> bool {
        f.0 < self.funcs.len()
    }

    /// The identity of the global scope, once it exists. The identity itself
    /// is the reserved constant 0; the option records whether the scope has
    /// been created yet.
    pub open spec fn global_scope_id(self) -> Option<LexicalScopeId> {
        if self.scopes.len() == 0 {
            None
        } else {
            Some(LexicalScopeId(0))
        }
    }

    /// The identity of the global function, once it exists.
    pub open spec fn global_function_id(self) -> Option<FunctionInfoId> {
        if self.funcs.len() == 0 {
            None
        } else {
            Some(FunctionInfoId(0))
        }
    }

    /// Well-formedness of one declaration: its creation scope exists.
    pub open spec fn decl_wf(self, i: int) -> bool {
        self.valid_scope_id(self.decls[i].scope)
    }

    /// Well-formedness of one scope: its owner and its lexical parent exist,
    /// and every declaration listed in it exists.
    pub open spec fn scope_wf(self, i: int) -> bool {
        let s = self.scopes[i];
        &&& self.valid_function_id(s.parent_function)
        &&& (s.parent_scope matches Some(p) ==> self.valid_scope_id(p))
        &&& forall|j: int|
            0 <= j < s.decls.len() ==> self.valid_decl_id(#[trigger] s.decls[j])
    }

    /// Well-formedness of one function: its parents exist, every scope
    /// listed in it exists and names this function as its owner, and its
    /// `arguments` declaration, if present, exists and is marked special.
    pub open spec fn func_wf(self, i: int) -> bool {
        let f = self.funcs[i];
        &&& (f.parent_function matches Some(p) ==> self.valid_function_id(p))
        &&& (f.parent_scope matches Some(p) ==> self.valid_scope_id(p))
        &&& forall|j: int|
            0 <= j < f.scopes.len() ==> self.valid_scope_id(#[trigger] f.scopes[j])
                && self.scopes[f.scopes[j].0 as int].parent_function.0 == i
        &&& (f.arguments_decl matches Some(d) ==> {
            &&& self.valid_decl_id(d)
            &&& self.decls[d.0 as int].special is Arguments
            &&& self.decls[d.0 as int].kind is Var
        })
    }

    /// Every identity held anywhere in the context addresses an entity of
    /// the context; scope lists point back to their owning function; an
    /// attached `arguments` declaration really is one.
    pub open spec fn wf(self) -> bool {
        &&& forall|i: int| 0 <= i < self.decls.len() ==> self.decl_wf(i)
        &&& forall|i: int| 0 <= i < self.scopes.len() ==> self.scope_wf(i)
        &&& forall|i: int| 0 <= i < self.funcs.len() ==> self.func_wf(i)
        &&& forall|n: NodeId|
            self.ident_decls.contains_key(n) ==> self.valid_decl_id(
                #[trigger] self.ident_decls[n],
            )
        &&& forall|n: NodeId|
            self.node_scopes.contains_key(n) ==> self.valid_scope_id(
                #[trigger] self.node_scopes[n],
            )
    }
}

/// The semantic-analysis context: the arenas, the construction API and the
/// query surface.
pub struct SemContext {
    decls: Vec<Decl>,
    scopes: Vec<LexicalScope>,
    funcs: Vec<FunctionInfo>,
    /// Resolved identifiers: declarations associated with identifier nodes.
    ident_decls: HashMap<NodeId, DeclId>,
    /// Lexical scopes associated with AST nodes.
    node_scopes: HashMap<NodeId, LexicalScopeId>,
    /// Resolved `require`-like calls.
    require_calls: HashMap<NodeId, SourceId>,
}

impl View for SemContext {
    type V = SemView;

    closed spec fn view(&self) -> SemView {
        SemView {
            decls: self.decls@,
            scopes: self.scopes@.map_values(|s: LexicalScope| s@),
            funcs: self.funcs@.map_values(|f: FunctionInfo| f@),
            ident_decls: self.ident_decls@,
            node_scopes: self.node_scopes@,
            require_calls: self.require_calls@,
        }
    }
}

impl SemContext {
    /// Create an empty context: no entities, no resolutions, and in
    /// particular no global scope or function yet.
    pub fn new() -> (r: SemContext)
        ensures
            r@ == SemView::empty(),
            r@.wf(),
    {
        let r = SemContext {
            decls: Vec::new(),
            scopes: Vec::new(),
            funcs: Vec::new(),
            ident_decls: HashMap::new(),
            node_scopes: HashMap::new(),
            require_calls: HashMap::new(),
        };
        proof {
            assert(r@ =~= SemView::empty());
        }
        r
    }
}

impl SemContext {
    /// Create a `FunctionInfo` and return its identity. The first function
    /// ever created receives the reserved global identity 0 by construction;
    /// the caller creates the global function before any other.
    pub fn new_function(
        &mut self,
        parent_function: Option<FunctionInfoId>,
        parent_scope: Option<LexicalScopeId>,
        strict: bool,
    ) -> (r: Result<FunctionInfoId, SemError>)
        requires
            old(self)@.wf(),
            parent_function matches Some(p) ==> old(self)@.valid_function_id(p),
            parent_scope matches Some(p) ==> old(self)@.valid_scope_id(p),
        ensures
            final(self)@.wf(),
            r is Ok <==> old(self)@.funcs.len() < ENTITY_LIMIT,
            r is Err ==> *final(self) == *old(self),
            r matches Ok(id) ==> {
                &&& id.0 == old(self)@.funcs.len()
                &&& final(self)@.funcs == old(self)@.funcs.push(
                    FuncView::initial(parent_function, parent_scope, strict),
                )
                &&& final(self)@.decls == old(self)@.decls
                &&& final(self)@.scopes == old(self)@.scopes
                &&& final(self)@.ident_decls == old(self)@.ident_decls
                &&& final(self)@.node_scopes == old(self)@.node_scopes
                &&& final(self)@.require_calls == old(self)@.require_calls
            },
    {
        if self.funcs.len() >= ENTITY_LIMIT {
            return Err(SemError::CapacityExceeded);
        }
        let id = FunctionInfoId(self.funcs.len() as u32);
        self.funcs.push(
            FunctionInfo {
                parent_function,
                parent_scope,
                strict,
                scopes: Vec::new(),
                arguments_decl: None,
            },
        );
        proof {
            let pre = old(self)@;
            let post = self@;
            assert(post.funcs =~= pre.funcs.push(
                FuncView::initial(parent_function, parent_scope, strict),
            ));
            assert forall|i: int| 0 <= i < post.funcs.len() implies post.func_wf(i) by {
                if i < pre.funcs.len() {
                    assert(pre.func_wf(i));
                }
            }
            assert forall|i: int| 0 <= i < post.scopes.len() implies post.scope_wf(i) by {
                assert(pre.scope_wf(i));
            }
            assert forall|i: int| 0 <= i < post.decls.len() implies post.decl_wf(i) by {
                assert(pre.decl_wf(i));
            }
            assert forall|n: NodeId| post.ident_decls.contains_key(n) implies post.valid_decl_id(
                post.ident_decls[n],
            ) by {
                assert(pre.valid_decl_id(pre.ident_decls[n]));
            }
            assert forall|n: NodeId| post.node_scopes.contains_key(n) implies post.valid_scope_id(
                post.node_scopes[n],
            ) by {
                assert(pre.valid_scope_id(pre.node_scopes[n]));
            }
        }
        Ok(id)
    }
    /// Create a `LexicalScope` owned by `in_function` and append its
    /// identity to that function's scope list. The first scope created for a
    /// function becomes that function's function scope by convention: the
    /// caller calls this exactly once per function before creating nested
    /// scopes in it.
    pub fn new_scope(
        &mut self,
        in_function: FunctionInfoId,
        parent_scope: Option<LexicalScopeId>,
    ) -> (r: Result<LexicalScopeId, SemError>)
        requires
            old(self)@.wf(),
            old(self)@.valid_function_id(in_function),
            parent_scope matches Some(p) ==> old(self)@.valid_scope_id(p),
        ensures
            final(self)@.wf(),
            r is Ok <==> old(self)@.scopes.len() < ENTITY_LIMIT,
            r is Err ==> *final(self) == *old(self),
            r matches Ok(id) ==> {
                &&& id.0 == old(self)@.scopes.len()
                &&& final(self)@.scopes == old(self)@.scopes.push(
                    ScopeView::initial(in_function, parent_scope),
                )
                &&& final(self)@.funcs == old(self)@.funcs.update(
                    in_function.0 as int,
                    old(self)@.funcs[in_function.0 as int].with_scope_added(id),
                )
                &&& final(self)@.decls == old(self)@.decls
                &&& final(self)@.ident_decls == old(self)@.ident_decls
                &&& final(self)@.node_scopes == old(self)@.node_scopes
                &&& final(self)@.require_calls == old(self)@.require_calls
            },
    {
        if self.scopes.len() >= ENTITY_LIMIT {
            return Err(SemError::CapacityExceeded);
        }
        let id = LexicalScopeId(self.scopes.len() as u32);
        self.scopes.push(
            LexicalScope {
                parent_function: in_function,
                parent_scope,
                decls: Vec::new(),
                hoisted_functions: Vec::new(),
            },
        );
        self.funcs[in_function.0 as usize].scopes.push(id);
        proof {
            let pre = old(self)@;
            let post = self@;
            assert(post.scopes =~= pre.scopes.push(ScopeView::initial(in_function, parent_scope)));
            assert(post.funcs =~= pre.funcs.update(
                in_function.0 as int,
                pre.funcs[in_function.0 as int].with_scope_added(id),
            ));
            assert forall|i: int| 0 <= i < post.funcs.len() implies post.func_wf(i) by {
                assert(pre.func_wf(i));
                let f = post.funcs[i];
                assert forall|j: int|
                    0 <= j < f.scopes.len() implies post.valid_scope_id(#[trigger] f.scopes[j])
                    && post.scopes[f.scopes[j].0 as int].parent_function.0 == i by {
                    if i == in_function.0 as int && j == f.scopes.len() - 1 {
                        assert(f.scopes[j] == id);
                    } else {
                        assert(f.scopes[j] == pre.funcs[i].scopes[j]);
                    }
                }
            }
            assert forall|i: int| 0 <= i < post.scopes.len() implies post.scope_wf(i) by {
                if i < pre.scopes.len() {
                    assert(pre.scope_wf(i));
                }
            }
            assert forall|i: int| 0 <= i < post.decls.len() implies post.decl_wf(i) by {
                assert(pre.decl_wf(i));
            }
            assert forall|n: NodeId| post.ident_decls.contains_key(n) implies post.valid_decl_id(
                post.ident_decls[n],
            ) by {
                assert(pre.valid_decl_id(pre.ident_decls[n]));
            }
            assert forall|n: NodeId| post.node_scopes.contains_key(n) implies post.valid_scope_id(
                post.node_scopes[n],
            ) by {
                assert(pre.valid_scope_id(pre.node_scopes[n]));
            }
        }
        Ok(id)
    }

    /// Create a `Decl` bound to `scope`, with the given special marker, and
    /// append its identity to that scope's declaration list.
    pub fn new_decl_special(
        &mut self,
        scope: LexicalScopeId,
        name: Atom,
        kind: DeclKind,
        special: Special,
    ) -> (r: Result<DeclId, SemError>)
        requires
            old(self)@.wf(),
            old(self)@.valid_scope_id(scope),
        ensures
            final(self)@.wf(),
            r is Ok <==> old(self)@.decls.len() < ENTITY_LIMIT,
            r is Err ==> *final(self) == *old(self),
            r matches Ok(id) ==> {
                &&& id.0 == old(self)@.decls.len()
                &&& final(self)@.decls == old(self)@.decls.push(
                    (Decl { name, kind, special, function_in_scope: false, scope }),
                )
                &&& final(self)@.scopes == old(self)@.scopes.update(
                    scope.0 as int,
                    old(self)@.scopes[scope.0 as int].with_decl_added(id),
                )
                &&& final(self)@.funcs == old(self)@.funcs
                &&& final(self)@.ident_decls == old(self)@.ident_decls
                &&& final(self)@.node_scopes == old(self)@.node_scopes
                &&& final(self)@.require_calls == old(self)@.require_calls
            },
    {
        if self.decls.len() >= ENTITY_LIMIT {
            return Err(SemError::CapacityExceeded);
        }
        let id = DeclId(self.decls.len() as u32);
        self.decls.push(Decl { name, kind, special, function_in_scope: false, scope });
        self.scopes[scope.0 as usize].decls.push(id);
        proof {
            let pre = old(self)@;
            let post = self@;
            assert(post.decls =~= pre.decls.push(
                Decl { name, kind, special, function_in_scope: false, scope },
            ));
            assert(post.scopes =~= pre.scopes.update(
                scope.0 as int,
                pre.scopes[scope.0 as int].with_decl_added(id),
            ));
            assert forall|i: int| 0 <= i < post.funcs.len() implies post.func_wf(i) by {
                assert(pre.func_wf(i));
            }
            assert forall|i: int| 0 <= i < post.scopes.len() implies post.scope_wf(i) by {
                assert(pre.scope_wf(i));
                let s = post.scopes[i];
                assert forall|j: int|
                    0 <= j < s.decls.len() implies post.valid_decl_id(#[trigger] s.decls[j]) by {
                    if i == scope.0 as int && j == s.decls.len() - 1 {
                        assert(s.decls[j] == id);
                    } else {
                        assert(s.decls[j] == pre.scopes[i].decls[j]);
                    }
                }
            }
            assert forall|i: int| 0 <= i < post.decls.len() implies post.decl_wf(i) by {
                if i < pre.decls.len() {
                    assert(pre.decl_wf(i));
                }
            }
            assert forall|n: NodeId| post.ident_decls.contains_key(n) implies post.valid_decl_id(
                post.ident_decls[n],
            ) by {
                assert(pre.valid_decl_id(pre.ident_decls[n]));
            }
            assert forall|n: NodeId| post.node_scopes.contains_key(n) implies post.valid_scope_id(
                post.node_scopes[n],
            ) by {
                assert(pre.valid_scope_id(pre.node_scopes[n]));
            }
        }
        Ok(id)
    }

    /// Create an ordinary (not special) `Decl` bound to `scope` and append
    /// its identity to that scope's declaration list.
    pub fn new_decl(&mut self, scope: LexicalScopeId, name: Atom, kind: DeclKind) -> (r: Result<
        DeclId,
        SemError,
    >)
        requires
            old(self)@.wf(),
            old(self)@.valid_scope_id(scope),
        ensures
            final(self)@.wf(),
            r is Ok <==> old(self)@.decls.len() < ENTITY_LIMIT,
            r is Err ==> *final(self) == *old(self),
            r matches Ok(id) ==> {
                &&& id.0 == old(self)@.decls.len()
                &&& final(self)@.decls == old(self)@.decls.push(
                    (Decl {
                        name,
                        kind,
                        special: Special::NotSpecial,
                        function_in_scope: false,
                        scope,
                    }),
                )
                &&& final(self)@.scopes == old(self)@.scopes.update(
                    scope.0 as int,
                    old(self)@.scopes[scope.0 as int].with_decl_added(id),
                )
                &&& final(self)@.funcs == old(self)@.funcs
                &&& final(self)@.ident_decls == old(self)@.ident_decls
                &&& final(self)@.node_scopes == old(self)@.node_scopes
                &&& final(self)@.require_calls == old(self)@.require_calls
            },
    {
        self.new_decl_special(scope, name, kind, Special::NotSpecial)
    }

    /// Create a declaration in the global scope. The caller must have
    /// created the global scope already.
    pub fn new_global(&mut self, name: Atom, kind: DeclKind) -> (r: Result<DeclId, SemError>)
        requires
            old(self)@.wf(),
            old(self)@.global_scope_id() is Some,
        ensures
            final(self)@.wf(),
            r is Ok <==> old(self)@.decls.len() < ENTITY_LIMIT,
            r is Err ==> *final(self) == *old(self),
            r matches Ok(id) ==> {
                &&& id.0 == old(self)@.decls.len()
                &&& final(self)@.decls == old(self)@.decls.push(
                    (Decl {
                        name,
                        kind,
                        special: Special::NotSpecial,
                        function_in_scope: false,
                        scope: LexicalScopeId(0),
                    }),
                )
                &&& final(self)@.scopes == old(self)@.scopes.update(
                    0,
                    old(self)@.scopes[0].with_decl_added(id),
                )
                &&& final(self)@.funcs == old(self)@.funcs
                &&& final(self)@.ident_decls == old(self)@.ident_decls
                &&& final(self)@.node_scopes == old(self)@.node_scopes
                &&& final(self)@.require_calls == old(self)@.require_calls
            },
    {
        self.new_decl(LexicalScopeId(0), name, kind)
    }

    /// Return the function's `arguments` declaration, creating it on the
    /// first call: a `Var` declaration marked `Arguments`, bound to the
    /// function's first (function) scope and recorded on the `FunctionInfo`.
    /// Calling it again returns the identical identity and changes nothing,
    /// so it is safe to call from every reference site.
    /// - `name`: the context has no access to the interning table, so the
    ///   name to declare under has to be passed in.
    pub fn func_arguments_decl(&mut self, func: FunctionInfoId, name: Atom) -> (r: Result<
        DeclId,
        SemError,
    >)
        requires
            old(self)@.wf(),
            old(self)@.valid_function_id(func),
            old(self)@.funcs[func.0 as int].scopes.len() > 0,
        ensures
            final(self)@.wf(),
            old(self)@.funcs[func.0 as int].arguments_decl matches Some(d) ==> r == Ok::<
                DeclId,
                SemError,
            >(d) && *final(self) == *old(self),
            old(self)@.funcs[func.0 as int].arguments_decl is None ==> {
                &&& r is Ok <==> old(self)@.decls.len() < ENTITY_LIMIT
                &&& r is Err ==> *final(self) == *old(self)
                &&& r matches Ok(id) ==> {
                    let scope0 = old(self)@.funcs[func.0 as int].scopes[0];
                    &&& id.0 == old(self)@.decls.len()
                    &&& final(self)@.decls == old(self)@.decls.push(
                        (Decl {
                            name,
                            kind: DeclKind::Var,
                            special: Special::Arguments,
                            function_in_scope: false,
                            scope: scope0,
                        }),
                    )
                    &&& final(self)@.scopes == old(self)@.scopes.update(
                        scope0.0 as int,
                        old(self)@.scopes[scope0.0 as int].with_decl_added(id),
                    )
                    &&& final(self)@.funcs == old(self)@.funcs.update(
                        func.0 as int,
                        old(self)@.funcs[func.0 as int].with_arguments_decl(id),
                    )
                    &&& final(self)@.ident_decls == old(self)@.ident_decls
                    &&& final(self)@.node_scopes == old(self)@.node_scopes
                    &&& final(self)@.require_calls == old(self)@.require_calls
                }
            },
            r matches Ok(id) ==> final(self)@.funcs[func.0 as int].arguments_decl == Some(id),
    {
        if let Some(d) = self.funcs[func.0 as usize].arguments_decl {
            return Ok(d);
        }
        let scope0 = self.funcs[func.0 as usize].scopes[0];
        proof {
            assert(self@.func_wf(func.0 as int));
            assert(self@.funcs[func.0 as int].scopes[0] == scope0);
        }
        let id = match self.new_decl_special(scope0, name, DeclKind::Var, Special::Arguments) {
            Ok(id) => id,
            Err(e) => {
                return Err(e);
            },
        };
        self.funcs[func.0 as usize].arguments_decl = Some(id);
        proof {
            let pre = old(self)@;
            let post = self@;
            let sid = scope0.0 as int;
            assert(post.funcs =~= pre.funcs.update(
                func.0 as int,
                pre.funcs[func.0 as int].with_arguments_decl(id),
            ));
            assert forall|i: int| 0 <= i < post.funcs.len() implies post.func_wf(i) by {
                assert(pre.func_wf(i));
                let f = post.funcs[i];
                assert forall|j: int|
                    0 <= j < f.scopes.len() implies post.valid_scope_id(#[trigger] f.scopes[j])
                    && post.scopes[f.scopes[j].0 as int].parent_function.0 == i by {
                    assert(f.scopes[j] == pre.funcs[i].scopes[j]);
                    assert(post.scopes[f.scopes[j].0 as int].parent_function == pre.scopes[f.scopes[
                        j
                    ].0 as int].parent_function);
                }
                if i == func.0 as int {
                    assert(post.decls[id.0 as int].special is Arguments);
                    assert(post.decls[id.0 as int].kind is Var);
                }
            }
            assert forall|i: int| 0 <= i < post.scopes.len() implies post.scope_wf(i) by {
                assert(pre.scope_wf(i));
                let s = post.scopes[i];
                assert forall|j: int|
                    0 <= j < s.decls.len() implies post.valid_decl_id(#[trigger] s.decls[j]) by {
                    if i == sid && j == s.decls.len() - 1 {
                        assert(s.decls[j] == id);
                    } else {
                        assert(s.decls[j] == pre.scopes[i].decls[j]);
                    }
                }
            }
            assert forall|i: int| 0 <= i < post.decls.len() implies post.decl_wf(i) by {
                if i < pre.decls.len() {
                    assert(pre.decl_wf(i));
                }
            }
            assert forall|n: NodeId| post.ident_decls.contains_key(n) implies post.valid_decl_id(
                post.ident_decls[n],
            ) by {
                assert(pre.valid_decl_id(pre.ident_decls[n]));
            }
            assert forall|n: NodeId| post.node_scopes.contains_key(n) implies post.valid_scope_id(
                post.node_scopes[n],
            ) by {
                assert(pre.valid_scope_id(pre.node_scopes[n]));
            }
        }
        Ok(id)
    }

    /// Record that the declaration is a function initialized in its scope:
    /// the one field of a declaration that the resolver flips after
    /// creation. Everything else about the context is unchanged.
    pub fn set_decl_function_in_scope(&mut self, id: DeclId, value: bool)
        requires
            old(self)@.wf(),
            old(self)@.valid_decl_id(id),
        ensures
            final(self)@.wf(),
            final(self)@.decls == old(self)@.decls.update(
                id.0 as int,
                old(self)@.decls[id.0 as int].with_function_in_scope(value),
            ),
            final(self)@.scopes == old(self)@.scopes,
            final(self)@.funcs == old(self)@.funcs,
            final(self)@.ident_decls == old(self)@.ident_decls,
            final(self)@.node_scopes == old(self)@.node_scopes,
            final(self)@.require_calls == old(self)@.require_calls,
    {
        self.decls[id.0 as usize].function_in_scope = value;
        proof {
            let pre = old(self)@;
            let post = self@;
            assert(post.decls =~= pre.decls.update(
                id.0 as int,
                pre.decls[id.0 as int].with_function_in_scope(value),
            ));
            assert forall|i: int| 0 <= i < post.funcs.len() implies post.func_wf(i) by {
                assert(pre.func_wf(i));
            }
            assert forall|i: int| 0 <= i < post.scopes.len() implies post.scope_wf(i) by {
                assert(pre.scope_wf(i));
            }
            assert forall|i: int| 0 <= i < post.decls.len() implies post.decl_wf(i) by {
                assert(pre.decl_wf(i));
            }
            assert forall|n: NodeId| post.ident_decls.contains_key(n) implies post.valid_decl_id(
                post.ident_decls[n],
            ) by {
                assert(pre.valid_decl_id(pre.ident_decls[n]));
            }
            assert forall|n: NodeId| post.node_scopes.contains_key(n) implies post.valid_scope_id(
                post.node_scopes[n],
            ) by {
                assert(pre.valid_scope_id(pre.node_scopes[n]));
            }
        }
    }

    /// Append an AST node to the scope's list of functions that must be
    /// hoisted and materialized before the rest of the scope runs.
    pub fn add_hoisted_function(&mut self, scope: LexicalScopeId, node: NodeId)
        requires
            old(self)@.wf(),
            old(self)@.valid_scope_id(scope),
        ensures
            final(self)@.wf(),
            final(self)@.scopes == old(self)@.scopes.update(
                scope.0 as int,
                old(self)@.scopes[scope.0 as int].with_hoisted_function_added(node),
            ),
            final(self)@.decls == old(self)@.decls,
            final(self)@.funcs == old(self)@.funcs,
            final(self)@.ident_decls == old(self)@.ident_decls,
            final(self)@.node_scopes == old(self)@.node_scopes,
            final(self)@.require_calls == old(self)@.require_calls,
    {
        self.scopes[scope.0 as usize].hoisted_functions.push(node);
        proof {
            let pre = old(self)@;
            let post = self@;
            assert(post.scopes =~= pre.scopes.update(
                scope.0 as int,
                pre.scopes[scope.0 as int].with_hoisted_function_added(node),
            ));
            assert forall|i: int| 0 <= i < post.funcs.len() implies post.func_wf(i) by {
                assert(pre.func_wf(i));
            }
            assert forall|i: int| 0 <= i < post.scopes.len() implies post.scope_wf(i) by {
                assert(pre.scope_wf(i));
                assert(post.scopes[i].decls == pre.scopes[i].decls);
            }
            assert forall|i: int| 0 <= i < post.decls.len() implies post.decl_wf(i) by {
                assert(pre.decl_wf(i));
            }
            assert forall|n: NodeId| post.ident_decls.contains_key(n) implies post.valid_decl_id(
                post.ident_decls[n],
            ) by {
                assert(pre.valid_decl_id(pre.ident_decls[n]));
            }
            assert forall|n: NodeId| post.node_scopes.contains_key(n) implies post.valid_scope_id(
                post.node_scopes[n],
            ) by {
                assert(pre.valid_scope_id(pre.node_scopes[n]));
            }
        }
    }
}

/// Well-formedness only constrains the entity arenas and the validity of the
/// identities the cross-reference maps hold, so it carries over to any state
/// with the same arenas whose maps still hold valid identities.
proof fn lemma_wf_after_record(pre: SemView, post: SemView)
    requires
        pre.wf(),
        post.decls == pre.decls,
        post.scopes == pre.scopes,
        post.funcs == pre.funcs,
        forall|n: NodeId|
            post.ident_decls.contains_key(n) ==> post.valid_decl_id(
                #[trigger] post.ident_decls[n],
            ),
        forall|n: NodeId|
            post.node_scopes.contains_key(n) ==> post.valid_scope_id(
                #[trigger] post.node_scopes[n],
            ),
    ensures
        post.wf(),
{
    assert forall|i: int| 0 <= i < post.funcs.len() implies post.func_wf(i) by {
        assert(pre.func_wf(i));
    }
    assert forall|i: int| 0 <= i < post.scopes.len() implies post.scope_wf(i) by {
        assert(pre.scope_wf(i));
    }
    assert forall|i: int| 0 <= i < post.decls.len() implies post.decl_wf(i) by {
        assert(pre.decl_wf(i));
    }
}

impl SemContext {
    /// The full identifier-resolution map, for bulk consumption by later
    /// phases.
    pub fn all_ident_decls(&self) -> (r: &HashMap<NodeId, DeclId>)
        ensures
            r@ == self@.ident_decls,
    {
        &self.ident_decls
    }

    /// Record which declaration the identifier node refers to. Recording a
    /// node again overwrites the earlier entry: last write wins.
    pub fn set_ident_decl(&mut self, node: NodeId, decl: DeclId)
        requires
            old(self)@.wf(),
            old(self)@.valid_decl_id(decl),
        ensures
            final(self)@.wf(),
            final(self)@.ident_decls == old(self)@.ident_decls.insert(node, decl),
            final(self)@.decls == old(self)@.decls,
            final(self)@.scopes == old(self)@.scopes,
            final(self)@.funcs == old(self)@.funcs,
            final(self)@.node_scopes == old(self)@.node_scopes,
            final(self)@.require_calls == old(self)@.require_calls,
    {
        self.ident_decls.insert(node, decl);
        proof {
            let pre = old(self)@;
            let post = self@;
            assert forall|n: NodeId| post.ident_decls.contains_key(n) implies post.valid_decl_id(
                post.ident_decls[n],
            ) by {
                if n != node {
                    assert(pre.valid_decl_id(pre.ident_decls[n]));
                }
            }
            assert forall|n: NodeId| post.node_scopes.contains_key(n) implies post.valid_scope_id(
                post.node_scopes[n],
            ) by {
                assert(pre.valid_scope_id(pre.node_scopes[n]));
            }
            lemma_wf_after_record(pre, post);
        }
    }

    /// The declaration the identifier node was resolved to, if any was
    /// recorded.
    pub fn ident_decl(&self, node: NodeId) -> (r: Option<DeclId>)
        ensures
            r matches Some(d) ==> self@.ident_decls.contains_key(node) && d
                == self@.ident_decls[node],
            r is None ==> !self@.ident_decls.contains_key(node),
    {
        match self.ident_decls.get(&node) {
            Some(d) => Some(*d),
            None => None,
        }
    }

    /// The full node-to-scope map, for bulk consumption by later phases.
    pub fn all_node_scopes(&self) -> (r: &HashMap<NodeId, LexicalScopeId>)
        ensures
            r@ == self@.node_scopes,
    {
        &self.node_scopes
    }

    /// Record which lexical scope the AST node opens (usually a block
    /// statement, occasionally another construct). Recording a node again
    /// overwrites the earlier entry: last write wins.
    pub fn set_node_scope(&mut self, node: NodeId, scope: LexicalScopeId)
        requires
            old(self)@.wf(),
            old(self)@.valid_scope_id(scope),
        ensures
            final(self)@.wf(),
            final(self)@.node_scopes == old(self)@.node_scopes.insert(node, scope),
            final(self)@.decls == old(self)@.decls,
            final(self)@.scopes == old(self)@.scopes,
            final(self)@.funcs == old(self)@.funcs,
            final(self)@.ident_decls == old(self)@.ident_decls,
            final(self)@.require_calls == old(self)@.require_calls,
    {
        self.node_scopes.insert(node, scope);
        proof {
            let pre = old(self)@;
            let post = self@;
            assert forall|n: NodeId| post.ident_decls.contains_key(n) implies post.valid_decl_id(
                post.ident_decls[n],
            ) by {
                assert(pre.valid_decl_id(pre.ident_decls[n]));
            }
            assert forall|n: NodeId| post.node_scopes.contains_key(n) implies post.valid_scope_id(
                post.node_scopes[n],
            ) by {
                if n != node {
                    assert(pre.valid_scope_id(pre.node_scopes[n]));
                }
            }
            lemma_wf_after_record(pre, post);
        }
    }

    /// The lexical scope recorded for the AST node, if any.
    pub fn node_scope(&self, node: NodeId) -> (r: Option<LexicalScopeId>)
        ensures
            r matches Some(s) ==> self@.node_scopes.contains_key(node) && s
                == self@.node_scopes[node],
            r is None ==> !self@.node_scopes.contains_key(node),
    {
        match self.node_scopes.get(&node) {
            Some(s) => Some(*s),
            None => None,
        }
    }

    /// The full map of resolved `require`-like calls.
    pub fn all_requires(&self) -> (r: &HashMap<NodeId, SourceId>)
        ensures
            r@ == self@.require_calls,
    {
        &self.require_calls
    }

    /// Record that the call expression statically resolves to the given
    /// compilation unit. Recording a call again overwrites the earlier
    /// entry: last write wins.
    pub fn add_require(&mut self, call: NodeId, file_id: SourceId)
        requires
            old(self)@.wf(),
        ensures
            final(self)@.wf(),
            final(self)@.require_calls == old(self)@.require_calls.insert(call, file_id),
            final(self)@.decls == old(self)@.decls,
            final(self)@.scopes == old(self)@.scopes,
            final(self)@.funcs == old(self)@.funcs,
            final(self)@.ident_decls == old(self)@.ident_decls,
            final(self)@.node_scopes == old(self)@.node_scopes,
    {
        self.require_calls.insert(call, file_id);
        proof {
            let pre = old(self)@;
            let post = self@;
            assert forall|n: NodeId| post.ident_decls.contains_key(n) implies post.valid_decl_id(
                post.ident_decls[n],
            ) by {
                assert(pre.valid_decl_id(pre.ident_decls[n]));
            }
            assert forall|n: NodeId| post.node_scopes.contains_key(n) implies post.valid_scope_id(
                post.node_scopes[n],
            ) by {
                assert(pre.valid_scope_id(pre.node_scopes[n]));
            }
            lemma_wf_after_record(pre, post);
        }
    }

    /// All declarations, in creation order.
    pub fn all_decls(&self) -> (r: &[Decl])
        ensures
            r@ == self@.decls,
    {
        self.decls.as_slice()
    }

    /// The declaration with the given identity.
    pub fn decl(&self, id: DeclId) -> (r: &Decl)
        requires
            self@.valid_decl_id(id),
        ensures
            *r == self@.decls[id.0 as int],
    {
        &self.decls[id.0 as usize]
    }

    /// All lexical scopes, in creation order.
    pub fn all_scopes(&self) -> (r: &[LexicalScope])
        ensures
            r@.len() == self@.scopes.len(),
            forall|i: int| 0 <= i < r@.len() ==> (#[trigger] r@[i])@ == self@.scopes[i],
    {
        self.scopes.as_slice()
    }

    /// The lexical scope with the given identity.
    pub fn scope(&self, id: LexicalScopeId) -> (r: &LexicalScope)
        requires
            self@.valid_scope_id(id),
        ensures
            r@ == self@.scopes[id.0 as int],
    {
        &self.scopes[id.0 as usize]
    }

    /// All functions, in creation order.
    pub fn all_functions(&self) -> (r: &[FunctionInfo])
        ensures
            r@.len() == self@.funcs.len(),
            forall|i: int| 0 <= i < r@.len() ==> (#[trigger] r@[i])@ == self@.funcs[i],
    {
        self.funcs.as_slice()
    }

    /// The function with the given identity.
    pub fn function(&self, id: FunctionInfoId) -> (r: &FunctionInfo)
        requires
            self@.valid_function_id(id),
        ensures
            r@ == self@.funcs[id.0 as int],
    {
        &self.funcs[id.0 as usize]
    }

    /// Return the id of the global scope in the context. This may seem
    /// redundant, since the id is constant; the idea is that the global
    /// scope may not have been created yet, and then there is none.
    pub fn global_scope_id(&self) -> (r: Option<LexicalScopeId>)
        ensures
            r == self@.global_scope_id(),
    {
        if self.scopes.is_empty() {
            None
        } else {
            Some(LexicalScopeId(0))
        }
    }

    /// Return the id of the global function in the context. This may seem
    /// redundant, since the id is constant; the idea is that the global
    /// function may not have been created yet, and then there is none.
    pub fn global_function_id(&self) -> (r: Option<FunctionInfoId>)
        ensures
            r == self@.global_function_id(),
    {
        if self.funcs.is_empty() {
            None
        } else {
            Some(FunctionInfoId(0))
        }
    }

    /// Return the special `arguments` declaration of the function, without
    /// creating one: none if `arguments` has not been used in it.
    pub fn func_arguments_opt(&self, func: FunctionInfoId) -> (r: Option<DeclId>)
        requires
            self@.valid_function_id(func),
        ensures
            r == self@.funcs[func.0 as int].arguments_decl,
    {
        self.funcs[func.0 as usize].arguments_decl
    }
}

impl Default for SemContext {
    /// Same as [`SemContext::new`].
    fn default() -> (r: SemContext)
        ensures
            r@ == SemView::empty(),
            r@.wf(),
    {
        SemContext::new()
    }
}

} // verus!
