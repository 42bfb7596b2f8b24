//! Semantic-analysis context for a compiler front end: the symbol table and
//! scope/function tree that a resolver pass populates while walking a parsed
//! program, and that later phases query.
//!
//! Entities (declarations, lexical scopes, functions) live in append-only
//! arenas and are addressed by compact, copyable identities that are never
//! invalidated. Identity 0 is reserved for the global scope and the global
//! function, which exist only once the resolver has created them.

pub mod context;
pub mod ids;
pub mod kinds;
pub mod laws;

pub use context::Decl;
pub use context::FuncView;
pub use context::FunctionInfo;
pub use context::LexicalScope;
pub use context::ScopeView;
pub use context::SemContext;
pub use context::SemError;
pub use context::SemView;
pub use ids::Atom;
pub use ids::DeclId;
pub use ids::FunctionInfoId;
pub use ids::LexicalScopeId;
pub use ids::NodeId;
pub use ids::SourceId;
pub use kinds::DeclKind;
pub use kinds::Special;
