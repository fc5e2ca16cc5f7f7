//! The error taxonomy. Every failure is unrecoverable for the current
//! compilation unit: the compiler aborts rather than emitting a partially
//! differentiated function.

use vstd::prelude::*;
use crate::ir::{Path, PrimFunc, Var, VarV};
use crate::lex::SourceLocation;

verus! {

/// A recognized but unhandled source form.
#[derive(Clone, Copy, Debug, PartialEq, Eq, Structural)]
pub enum Construct {
    /// A name with generic arguments.
    Generics,
    /// A by-reference binding or parameter.
    ByReference,
    /// A mutable binding or parameter.
    Mutability,
    /// An operator outside the supported arithmetic/comparison/boolean/bit set.
    Operator,
    /// A conditional without an else branch.
    MissingElse,
    /// More than one implicit return in one block.
    MultipleImplicitReturns,
    /// A function without a declared return type.
    MissingReturnType,
    /// A block that does not resolve its return.
    BlockFallthrough,
    /// A call target that is not a plain path.
    CallTarget,
    /// A parameter or binding pattern that is not a plain identifier.
    Pattern,
    /// A declared type outside the supported subset.
    TypeForm,
    /// A statement form outside the supported subset.
    Statement,
    /// An expression form outside the supported subset.
    ExpressionForm,
    /// A unit that needs more variables or versions than the machine can number.
    Oversized,
}

/// An IR shape the generator has no translation for.
#[derive(Clone, Copy, Debug, PartialEq, Eq, Structural)]
pub enum LoweringGap {
    /// A primitive tag without an entry in the translation table.
    Primitive(PrimFunc),
    /// A primitive applied to the wrong number of operands.
    Arity(PrimFunc),
    /// A type the parameter/result lift cannot handle.
    Lift,
    /// A block whose return is not resolved.
    Return,
    /// A call-site name that is not an identifier.
    Name,
}

/// Why a compilation unit was rejected.
#[derive(Clone, Debug)]
pub enum CompileError {
    /// Unparseable input.
    SyntaxError(SourceLocation),
    /// Recognized but unhandled form.
    UnsupportedConstruct(Construct),
    /// An identifier that no scope defines.
    UndefinedVariable(Path),
    /// The same variable defined twice: an internal SSA-invariant fault.
    DuplicateDefinition(Var),
    /// The generator hit an unimplemented IR shape or primitive.
    UnsupportedLowering(LoweringGap),
}

/// Mathematical view of `CompileError`.
pub enum CompileErrorV {
    SyntaxError(SourceLocation),
    UnsupportedConstruct(Construct),
    UndefinedVariable(Seq<Seq<char>>),
    DuplicateDefinition(VarV),
    UnsupportedLowering(LoweringGap),
}

impl View for CompileError {
    type V = CompileErrorV;

    open spec fn view(&self) -> CompileErrorV {
        match self {
            CompileError::SyntaxError(l) => CompileErrorV::SyntaxError(*l),
            CompileError::UnsupportedConstruct(c) => CompileErrorV::UnsupportedConstruct(*c),
            CompileError::UndefinedVariable(p) => CompileErrorV::UndefinedVariable(p@),
            CompileError::DuplicateDefinition(v) => CompileErrorV::DuplicateDefinition(v@),
            CompileError::UnsupportedLowering(g) => CompileErrorV::UnsupportedLowering(*g),
        }
    }
}

} // verus!
