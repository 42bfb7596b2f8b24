//! The declaration-kind taxonomy and its classification predicates.
//!
//! The kinds fall into three contiguous groups: let-like (lexically scoped,
//! cannot be redeclared), two intermediate kinds bound to function literals
//! and declarations, and var-like (function scoped, redeclaration-tolerant).
//! The predicates are explicit per-variant facts, so their correctness does
//! not depend on the order in which the variants are written down.

use vstd::prelude::*;

verus! {

/// What kind of declaration a binding is.
#[derive(Copy, Clone, Debug, PartialEq, Eq, Structural)]
pub enum DeclKind {
    /// `let`, lexically scoped.
    Let,
    /// `const`, lexically scoped.
    Const,
    /// A class binding, lexically scoped.
    Class,
    /// An imported binding, lexically scoped.
    Import,
    /// A single catch variable declared as `catch (e)`, under legacy
    /// variable-statements-in-catch-blocks semantics.
    ES5Catch,
    /// The name bound inside a named function expression's own scope.
    FunctionExprName,
    /// A function declaration visible only in its lexical scope.
    ScopedFunction,
    /// `var` in function scope.
    Var,
    /// A formal parameter.
    Parameter,
    /// `var` in the global scope.
    GlobalProperty,
    /// An implicit global created by assignment to an undeclared name.
    UndeclaredGlobalProperty,
}

/// Marks implicit ("magic") bindings not written by the programmer.
#[derive(Copy, Clone, Debug, PartialEq, Eq, Structural)]
pub enum Special {
    /// An ordinary, explicitly written binding.
    NotSpecial,
    /// The implicit `arguments` object of a function.
    Arguments,
    /// The implicit `eval` binding.
    Eval,
}

impl DeclKind {
    /// Whether this kind is function scoped and redeclaration-tolerant.
    pub open spec fn spec_is_var_like(self) -> bool {
        match self {
            DeclKind::Var
            | DeclKind::Parameter
            | DeclKind::GlobalProperty
            | DeclKind::UndeclaredGlobalProperty => true,
            _ => false,
        }
    }

    /// Return true if this kind of declaration is function scope (and can be
    /// re-declared).
    #[verifier::when_used_as_spec(spec_is_var_like)]
    pub fn is_var_like(self) -> (r: bool)
        ensures
            r == self.spec_is_var_like(),
    {
        match self {
            DeclKind::Var
            | DeclKind::Parameter
            | DeclKind::GlobalProperty
            | DeclKind::UndeclaredGlobalProperty => true,
            _ => false,
        }
    }

    /// Whether this kind is var-like or a lexically scoped function
    /// declaration.
    pub open spec fn spec_is_var_like_or_scoped_function(self) -> bool {
        self is ScopedFunction || self.spec_is_var_like()
    }

    /// Return true if this kind is var-like or a function declaration visible
    /// only in its lexical scope.
    #[verifier::when_used_as_spec(spec_is_var_like_or_scoped_function)]
    pub fn is_var_like_or_scoped_function(self) -> (r: bool)
        ensures
            r == self.spec_is_var_like_or_scoped_function(),
    {
        match self {
            DeclKind::ScopedFunction
            | DeclKind::Var
            | DeclKind::Parameter
            | DeclKind::GlobalProperty
            | DeclKind::UndeclaredGlobalProperty => true,
            _ => false,
        }
    }

    /// Whether this kind is lexically scoped and cannot be redeclared in the
    /// same scope.
    pub open spec fn spec_is_let_like(self) -> bool {
        match self {
            DeclKind::Let
            | DeclKind::Const
            | DeclKind::Class
            | DeclKind::Import
            | DeclKind::ES5Catch => true,
            _ => false,
        }
    }

    /// Return true if this kind of declaration is lexically scoped (and
    /// cannot be re-declared).
    #[verifier::when_used_as_spec(spec_is_let_like)]
    pub fn is_let_like(self) -> (r: bool)
        ensures
            r == self.spec_is_let_like(),
    {
        match self {
            DeclKind::Let
            | DeclKind::Const
            | DeclKind::Class
            | DeclKind::Import
            | DeclKind::ES5Catch => true,
            _ => false,
        }
    }

    /// Whether this kind denotes a property of the global object.
    pub open spec fn spec_is_global(self) -> bool {
        self is GlobalProperty || self is UndeclaredGlobalProperty
    }

    /// Return true if this kind of declaration is a global property.
    #[verifier::when_used_as_spec(spec_is_global)]
    pub fn is_global(self) -> (r: bool)
        ensures
            r == self.spec_is_global(),
    {
        match self {
            DeclKind::GlobalProperty | DeclKind::UndeclaredGlobalProperty => true,
            _ => false,
        }
    }
}

/// The classification predicates partition the kinds along the three
/// contiguous groups of the taxonomy: every kind is let-like, or var-like or
/// a scoped function, or the name of a function expression — and never more
/// than one of these at once. Within the var-like-or-scoped-function group,
/// the var-like kinds form a subgroup, and the global-property kinds a
/// subgroup of that.
pub proof fn lemma_decl_kind_classification(k: DeclKind)
    ensures
        !(k.spec_is_let_like() && k.spec_is_var_like_or_scoped_function()),
        k.spec_is_let_like() || k.spec_is_var_like_or_scoped_function() || k
            is FunctionExprName,
        k is FunctionExprName ==> !k.spec_is_let_like()
            && !k.spec_is_var_like_or_scoped_function(),
        k.spec_is_var_like() ==> k.spec_is_var_like_or_scoped_function(),
        k is ScopedFunction ==> k.spec_is_var_like_or_scoped_function()
            && !k.spec_is_var_like(),
        k.spec_is_global() ==> k.spec_is_var_like(),
{
}

} // verus!
