use vstd::prelude::*;

verus! {

/// A type as written in a field: its text, as rendered from its tokens, and
/// the types nested in it (the parameters of a container, the element of an
/// array, ...).
#[derive(Debug)]
pub struct TypeExpr {
    pub text: String,
    pub args: Vec<TypeExpr>,
}

/// One attribute of a declaration, as far as annotating reads it.
#[derive(Debug)]
pub enum Attr {
    /// An attribute whose path is `derive`; `list` holds the text of the
    /// tokens between its parentheses when it is written as a list.
    Derive { list: Option<String> },
    /// Any other attribute.
    Other,
}

/// The shape of a declaration: the types of a struct's fields, or those of
/// each variant of an enum.
#[derive(Debug)]
pub enum Data {
    Struct(Vec<TypeExpr>),
    Enum(Vec<Vec<TypeExpr>>),
}

/// A struct or enum declaration: its name, its attributes in order, and its
/// fields.
#[derive(Debug)]
pub struct Decl {
    pub name: String,
    pub attrs: Vec<Attr>,
    pub data: Data,
}

} // verus!
