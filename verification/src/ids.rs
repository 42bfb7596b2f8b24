//! Identity types for the three entity families stored by the context, plus
//! the plain handles under which the caller's world is seen.
//!
//! Each entity identity is an opaque, copyable, equality-comparable handle
//! over a dense arena index. Identity 0 is reserved: for scopes it denotes
//! the single global scope, for functions the single global function.
//! Identities are never reused and never invalidated.

use vstd::prelude::*;

verus! {

/// An interned binding name. Names are handed out by an externally-owned
/// interning table; the context treats them as opaque comparable tokens and
/// never looks at their text.
pub type Atom = u32;

/// The identity of an AST node in the caller's externally-owned tree. The
/// context uses it only as an opaque map key (structural identity of nodes).
pub type NodeId = u32;

/// The identity of another compilation unit, as resolved by the caller for a
/// `require`-like call.
pub type SourceId = u32;

/// Identity of one declaration in the context's arena.
#[derive(Copy, Clone, Debug, PartialEq, Eq, Hash, Structural)]
pub struct DeclId(pub u32);

/// Identity of one lexical scope in the context's arena.
#[derive(Copy, Clone, Debug, PartialEq, Eq, Hash, Structural)]
pub struct LexicalScopeId(pub u32);

/// Identity of one function in the context's arena.
#[derive(Copy, Clone, Debug, PartialEq, Eq, Hash, Structural)]
pub struct FunctionInfoId(pub u32);

impl LexicalScopeId {
    /// Whether this is the reserved identity of the global scope.
    pub open spec fn spec_is_global(self) -> bool {
        self.0 == 0
    }

    /// True exactly of the reserved global-scope identity.
    #[verifier::when_used_as_spec(spec_is_global)]
    pub fn is_global(self) -> (r: bool)
        ensures
            r == self.spec_is_global(),
    {
        self.0 == 0
    }
}

impl FunctionInfoId {
    /// Whether this is the reserved identity of the global function.
    pub open spec fn spec_is_global(self) -> bool {
        self.0 == 0
    }

    /// True exactly of the reserved global-function identity.
    #[verifier::when_used_as_spec(spec_is_global)]
    pub fn is_global(self) -> (r: bool)
        ensures
            r == self.spec_is_global(),
    {
        self.0 == 0
    }
}

} // verus!
