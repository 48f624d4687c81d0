//! The annotated implementation block and the generator's arguments, as
//! plain values: what the generator reads of the source, and nothing more.
use vstd::prelude::*;

verus! {

/// One parameter of a method.
pub enum FnParam {
    /// `self`, `&self`, `&mut self`.
    Receiver,
    /// A `pattern: Type` parameter, with the source text of its type.
    Typed(String),
}

/// One argument between the angle brackets of a path segment.
pub enum GenericArg {
    /// A type, by its source text.
    Type(String),
    /// A lifetime, a constant, a binding or a constraint.
    Other,
}

/// What follows the identifier of a path segment.
pub enum PathArgs {
    /// Nothing.
    Bare,
    /// `<...>`.
    Angle(Vec<GenericArg>),
    /// `(...) -> ...`, as in `Fn(A) -> B`.
    Paren,
}

/// A type as the signature analysis sees it.
pub enum TypeDesc {
    /// A path type: the arguments of each of its segments, in order.
    Path(Vec<PathArgs>),
    /// Any other type (reference, tuple, slice, ...).
    Other,
}

/// The return type of a method.
pub enum ReturnDesc {
    /// No `->`.
    Default,
    /// `-> T`.
    Type(TypeDesc),
}

/// One item inside the parentheses of a list attribute.
pub enum NestedItem {
    /// A path, possibly followed by `(...)` or `= ...`: the canonical form of the path.
    Meta(String),
    /// A literal.
    Literal,
}

/// The shape of an attribute's arguments.
pub enum AttrMeta {
    /// `#[name]`.
    Path,
    /// `#[name(a, b, ...)]`.
    List(Vec<NestedItem>),
    /// `#[name = value]`.
    NameValue,
    /// Arguments that are no attribute syntax at all.
    Unparsed,
}

/// One attribute of a method.
pub struct Attr {
    /// Canonical form of the attribute's path.
    pub path: String,
    /// Its arguments.
    pub meta: AttrMeta,
}

/// One method of the annotated block.
pub struct MethodDesc {
    /// The method's name.
    pub name: String,
    /// Its parameters, receiver included.
    pub params: Vec<FnParam>,
    /// Its return type.
    pub ret: ReturnDesc,
    /// Its attributes, in source order.
    pub attrs: Vec<Attr>,
    /// Source text of the method without its attributes.
    pub body: String,
}

/// One item of the annotated block.
pub enum ImplEntry {
    /// A method.
    Method(MethodDesc),
    /// A macro invocation.
    Macro,
    /// A constant, an associated type, or anything else.
    Other,
}

/// The annotated implementation block.
pub struct ImplDesc {
    /// Source text of the implementing type, when it is a path type.
    pub self_type: Option<String>,
    /// The block's items, in source order.
    pub entries: Vec<ImplEntry>,
}

/// One argument of the generator annotation.
pub enum ArgDesc {
    /// A path: the identifiers of its segments.
    Path(Vec<String>),
    /// A literal, a list, or a `name = value` pair.
    Other,
}

/// Why generation failed. Method and item positions count from zero in
/// source order.
#[derive(PartialEq, Eq, Structural, Clone, Copy, Debug)]
pub enum GenError {
    /// The method has no third parameter, or it is a receiver.
    RequestNotTyped { method: usize },
    /// The method has no return type.
    MissingReturnType { method: usize },
    /// The return type is not a path type.
    ReturnNotPath { method: usize },
    /// The return type's first segment does not carry two angle-bracketed arguments.
    ReturnNotResult { method: usize },
    /// One of the result type's two arguments is not a type.
    ResultArgNotType { method: usize },
    /// A `middleware` attribute is not a list.
    MiddlewareNotList { method: usize },
    /// An entry of a `middleware` list is not a path.
    MiddlewareNotPath { method: usize },
    /// The implementing type is not a path type.
    SelfTypeNotPath,
    /// The block holds a macro invocation.
    MacroInBlock { item: usize },
    /// The block holds an item that is not a method.
    NotAMethod { item: usize },
    /// The generator annotation does not have exactly two arguments.
    ArgumentCount,
    /// An argument of the generator annotation is not a path.
    ArgumentNotPath { position: usize },
}

} // verus!
