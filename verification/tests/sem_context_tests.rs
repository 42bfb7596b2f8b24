use sem_context::DeclId;
use sem_context::DeclKind;
use sem_context::FunctionInfoId;
use sem_context::LexicalScopeId;
use sem_context::SemContext;
use sem_context::Special;

#[test]
fn kind_classification_table() {
    // Let-like group: lexically scoped, nothing else.
    for k in [
        DeclKind::Let,
        DeclKind::Const,
        DeclKind::Class,
        DeclKind::Import,
        DeclKind::ES5Catch,
    ] {
        assert!(k.is_let_like());
        assert!(!k.is_var_like_or_scoped_function());
        assert!(!k.is_var_like());
        assert!(!k.is_global());
    }
    // The name of a function expression is in no group.
    let k = DeclKind::FunctionExprName;
    assert!(!k.is_let_like());
    assert!(!k.is_var_like_or_scoped_function());
    assert!(!k.is_var_like());
    assert!(!k.is_global());
    // A scoped function counts as var-like-or-scoped-function only.
    let k = DeclKind::ScopedFunction;
    assert!(!k.is_let_like());
    assert!(k.is_var_like_or_scoped_function());
    assert!(!k.is_var_like());
    assert!(!k.is_global());
    // Var-like group.
    for k in [DeclKind::Var, DeclKind::Parameter] {
        assert!(!k.is_let_like());
        assert!(k.is_var_like_or_scoped_function());
        assert!(k.is_var_like());
        assert!(!k.is_global());
    }
    // Global properties are additionally global.
    for k in [DeclKind::GlobalProperty, DeclKind::UndeclaredGlobalProperty] {
        assert!(!k.is_let_like());
        assert!(k.is_var_like_or_scoped_function());
        assert!(k.is_var_like());
        assert!(k.is_global());
    }
}

#[test]
fn global_ids_absent_then_present() {
    let mut ctx = SemContext::new();
    assert_eq!(ctx.global_function_id(), None);
    assert_eq!(ctx.global_scope_id(), None);

    let f = ctx.new_function(None, None, false).unwrap();
    assert_eq!(f, FunctionInfoId(0));
    assert!(f.is_global());
    assert_eq!(ctx.global_function_id(), Some(f));
    assert_eq!(ctx.global_scope_id(), None);

    let s = ctx.new_scope(f, None).unwrap();
    assert_eq!(s, LexicalScopeId(0));
    assert!(s.is_global());
    assert_eq!(ctx.global_scope_id(), Some(s));
}

#[test]
fn later_ids_are_not_global() {
    let mut ctx = SemContext::new();
    let g = ctx.new_function(None, None, false).unwrap();
    let gs = ctx.new_scope(g, None).unwrap();
    let f = ctx.new_function(Some(g), Some(gs), false).unwrap();
    let fs = ctx.new_scope(f, Some(gs)).unwrap();
    assert!(!f.is_global());
    assert!(!fs.is_global());
    assert_eq!(f, FunctionInfoId(1));
    assert_eq!(fs, LexicalScopeId(1));
    // The global ids still answer with the reserved identity 0.
    assert_eq!(ctx.global_function_id(), Some(g));
    assert_eq!(ctx.global_scope_id(), Some(gs));
}

#[test]
fn arguments_decl_idempotent() {
    let name_arguments: u32 = 11;
    let mut ctx = SemContext::new();
    let f = ctx.new_function(None, None, false).unwrap();
    let s = ctx.new_scope(f, None).unwrap();
    assert_eq!(ctx.func_arguments_opt(f), None);

    let d1 = ctx.func_arguments_decl(f, name_arguments).unwrap();
    let d2 = ctx.func_arguments_decl(f, name_arguments).unwrap();
    assert_eq!(d1, d2);
    assert_eq!(ctx.func_arguments_opt(f), Some(d1));
    // The function scope gained the single arguments entry and nothing more,
    // however often the declaration was asked for.
    assert_eq!(ctx.scope(s).decls, vec![d1]);
    let d = ctx.decl(d1);
    assert_eq!(d.name, name_arguments);
    assert_eq!(d.kind, DeclKind::Var);
    assert_eq!(d.special, Special::Arguments);
    assert_eq!(d.scope, s);
}

#[test]
fn function_scopes_point_back() {
    let mut ctx = SemContext::new();
    let g = ctx.new_function(None, None, false).unwrap();
    let gs = ctx.new_scope(g, None).unwrap();
    let f = ctx.new_function(Some(g), Some(gs), true).unwrap();
    let fs = ctx.new_scope(f, Some(gs)).unwrap();
    let block1 = ctx.new_scope(f, Some(fs)).unwrap();
    let block2 = ctx.new_scope(f, Some(block1)).unwrap();

    let scopes = ctx.function(f).scopes.clone();
    assert_eq!(scopes, vec![fs, block1, block2]);
    for id in scopes {
        assert_eq!(ctx.scope(id).parent_function, f);
    }
    assert_eq!(ctx.function(g).scopes, vec![gs]);
    assert_eq!(ctx.scope(gs).parent_function, g);
    // The nested function's scope chain crosses the function boundary.
    assert_eq!(ctx.scope(fs).parent_scope, Some(gs));
    assert!(ctx.function(f).strict);
    assert_eq!(ctx.function(f).parent_function, Some(g));
    assert_eq!(ctx.function(f).parent_scope, Some(gs));
}

#[test]
fn decls_in_creation_order() {
    let mut ctx = SemContext::new();
    let g = ctx.new_function(None, None, false).unwrap();
    let gs = ctx.new_scope(g, None).unwrap();
    let names: [u32; 5] = [20, 21, 22, 23, 24];
    let mut made = Vec::new();
    for n in names {
        made.push(ctx.new_decl(gs, n, DeclKind::Let).unwrap());
    }
    assert_eq!(ctx.scope(gs).decls, made);
    assert_eq!(ctx.all_decls().len(), 5);
    for (i, d) in made.iter().enumerate() {
        assert_eq!(*d, DeclId(i as u32));
        assert_eq!(ctx.decl(*d).name, names[i]);
    }
}

#[test]
fn resolution_overwrites() {
    let node: u32 = 400;
    let other: u32 = 401;
    let mut ctx = SemContext::new();
    let g = ctx.new_function(None, None, false).unwrap();
    let gs = ctx.new_scope(g, None).unwrap();
    let d1 = ctx.new_decl(gs, 1, DeclKind::Var).unwrap();
    let d2 = ctx.new_decl(gs, 2, DeclKind::Var).unwrap();

    ctx.set_ident_decl(node, d1);
    assert_eq!(ctx.all_ident_decls().len(), 1);
    ctx.set_ident_decl(node, d1);
    assert_eq!(ctx.all_ident_decls().len(), 1);
    ctx.set_ident_decl(node, d2);
    assert_eq!(ctx.all_ident_decls().len(), 1);
    assert_eq!(ctx.ident_decl(node), Some(d2));
    assert_eq!(ctx.ident_decl(other), None);

    ctx.set_node_scope(node, gs);
    ctx.set_node_scope(node, gs);
    assert_eq!(ctx.all_node_scopes().len(), 1);
    assert_eq!(ctx.node_scope(node), Some(gs));
    assert_eq!(ctx.node_scope(other), None);
}

#[test]
fn require_resolutions_recorded() {
    let call: u32 = 77;
    let mut ctx = SemContext::new();
    assert!(ctx.all_requires().is_empty());
    ctx.add_require(call, 5);
    assert_eq!(ctx.all_requires().len(), 1);
    assert_eq!(ctx.all_requires().get(&call), Some(&5));
    // Last write wins.
    ctx.add_require(call, 6);
    assert_eq!(ctx.all_requires().len(), 1);
    assert_eq!(ctx.all_requires().get(&call), Some(&6));
}

#[test]
fn function_in_scope_flag() {
    let mut ctx = SemContext::new();
    let g = ctx.new_function(None, None, false).unwrap();
    let gs = ctx.new_scope(g, None).unwrap();
    let d = ctx.new_decl(gs, 9, DeclKind::ScopedFunction).unwrap();
    assert!(!ctx.decl(d).function_in_scope);
    ctx.set_decl_function_in_scope(d, true);
    assert!(ctx.decl(d).function_in_scope);
    // Nothing else about the declaration moved.
    assert_eq!(ctx.decl(d).name, 9);
    assert_eq!(ctx.decl(d).kind, DeclKind::ScopedFunction);
    ctx.set_decl_function_in_scope(d, false);
    assert!(!ctx.decl(d).function_in_scope);
}

#[test]
fn hoisted_functions_in_order() {
    let mut ctx = SemContext::new();
    let g = ctx.new_function(None, None, false).unwrap();
    let gs = ctx.new_scope(g, None).unwrap();
    ctx.add_hoisted_function(gs, 300);
    ctx.add_hoisted_function(gs, 301);
    assert_eq!(ctx.scope(gs).hoisted_functions, vec![300, 301]);
}

#[test]
fn default_context_is_empty() {
    let ctx = SemContext::default();
    assert!(ctx.all_decls().is_empty());
    assert!(ctx.all_scopes().is_empty());
    assert!(ctx.all_functions().is_empty());
    assert!(ctx.all_ident_decls().is_empty());
    assert!(ctx.all_node_scopes().is_empty());
    assert!(ctx.all_requires().is_empty());
    assert_eq!(ctx.global_function_id(), None);
    assert_eq!(ctx.global_scope_id(), None);
}

#[test]
fn end_to_end_var_and_function() {
    // Source equivalent to: var a; function f(x) { let b = x; return b; }
    let atom_a: u32 = 1;
    let atom_f: u32 = 2;
    let atom_x: u32 = 3;
    let atom_b: u32 = 4;
    let node_b_ref: u32 = 900;

    let mut ctx = SemContext::new();
    let gf = ctx.new_function(None, None, false).unwrap();
    let gs = ctx.new_scope(gf, None).unwrap();
    assert!(gf.is_global() && gs.is_global());

    let a = ctx.new_global(atom_a, DeclKind::GlobalProperty).unwrap();
    let f_decl = ctx.new_global(atom_f, DeclKind::GlobalProperty).unwrap();

    let f = ctx.new_function(Some(gf), Some(gs), false).unwrap();
    let fs = ctx.new_scope(f, Some(gs)).unwrap();
    let x = ctx.new_decl(fs, atom_x, DeclKind::Parameter).unwrap();
    let b = ctx.new_decl(fs, atom_b, DeclKind::Let).unwrap();
    ctx.set_ident_decl(node_b_ref, b);

    // The global function holds one Var-at-top-level declaration named a.
    assert_eq!(gf, FunctionInfoId(0));
    assert_eq!(gs, LexicalScopeId(0));
    assert_eq!(ctx.scope(gs).decls, vec![a, f_decl]);
    assert_eq!(ctx.decl(a).name, atom_a);
    assert_eq!(ctx.decl(a).kind, DeclKind::GlobalProperty);
    assert!(ctx.decl(a).kind.is_var_like());

    // The second function holds the parameter and the let binding.
    assert_eq!(ctx.all_functions().len(), 2);
    assert_eq!(ctx.function(f).scopes, vec![fs]);
    assert_eq!(ctx.scope(fs).decls, vec![x, b]);
    assert_eq!(ctx.decl(x).kind, DeclKind::Parameter);
    assert_eq!(ctx.decl(b).kind, DeclKind::Let);

    // The reference to b inside `return b;` resolves to the let declaration.
    assert_eq!(ctx.ident_decl(node_b_ref), Some(b));
    assert_eq!(ctx.decl(ctx.ident_decl(node_b_ref).unwrap()).name, atom_b);

    // No arguments declaration exists for f, since none was referenced.
    assert_eq!(ctx.func_arguments_opt(f), None);
}
