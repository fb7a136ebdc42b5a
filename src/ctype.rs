//! The model of C types that the generator reads.

use vstd::prelude::*;

verus! {

/// The classification of a basic C type.
#[derive(Debug, Clone, Copy, PartialEq, Eq, Structural)]
pub enum Primitive {
    Void,
    Int,
    UInt,
    Long,
    LongLong,
    Float,
    Double,
    /// Any other basic type (`char`, `short`, `_Bool`, ...), an array or a
    /// function type: none of them has a literal format here.
    Other,
}

/// The shape of a C type.
#[derive(Debug)]
pub enum TypeKind {
    Primitive(Primitive),
    Pointer(Box<CType>),
    /// A `typedef` name, standing for its underlying type.
    Typedef(Box<CType>),
    /// A type written with a `struct`, `union` or `enum` tag, standing for
    /// the tagged type.
    Elaborated(Box<CType>),
    /// A record with its fields in declaration order.
    Record(Vec<Field>),
}

/// A C type: the name under which C source spells it and its shape.
#[derive(Debug)]
pub struct CType {
    pub display: String,
    pub kind: TypeKind,
}

/// A field of a record. The front end may fail to give its name or type.
#[derive(Debug)]
pub struct Field {
    pub name: Option<String>,
    pub ty: Option<CType>,
}

/// The kind of value that one reconstruction statement prints.
#[derive(Debug, Clone, Copy, PartialEq, Eq, Structural)]
pub enum LiteralKind {
    /// A number of the given basic type.
    Number(Primitive),
    /// A pointer, printed as the text of an address-of expression.
    Address,
    /// A value that is neither a number nor a pointer to rebuild.
    Composite,
}

/// The `printf` conversion that prints a value of kind `k` as a C literal,
/// or `None` where there is none.
pub open spec fn format_of(k: LiteralKind) -> Option<Seq<char>> {
    match k {
        LiteralKind::Number(Primitive::Int) => Some(seq!['%', 'd']),
        LiteralKind::Number(Primitive::Long) => Some(seq!['%', 'l', 'd']),
        LiteralKind::Number(Primitive::LongLong) => Some(seq!['%', 'l', 'l', 'd']),
        LiteralKind::Number(Primitive::Float) => Some(seq!['%', 'f']),
        LiteralKind::Number(Primitive::Double) => Some(seq!['%', 'l', 'f']),
        LiteralKind::Number(Primitive::UInt) => Some(seq!['%', 'u']),
        LiteralKind::Address => Some(seq!['%', 's']),
        _ => None,
    }
}

/// The `printf` conversion for a value of kind `k`.
pub fn printf_format(k: LiteralKind) -> (r: Option<&'static str>)
    ensures
        r matches Some(s) ==> format_of(k) == Some(s@),
        r is None <==> format_of(k) is None,
{
    proof {
        reveal_strlit("%d");
        reveal_strlit("%ld");
        reveal_strlit("%lld");
        reveal_strlit("%f");
        reveal_strlit("%lf");
        reveal_strlit("%u");
        reveal_strlit("%s");
    }
    match k {
        LiteralKind::Number(Primitive::Int) => Some("%d"),
        LiteralKind::Number(Primitive::Long) => Some("%ld"),
        LiteralKind::Number(Primitive::LongLong) => Some("%lld"),
        LiteralKind::Number(Primitive::Float) => Some("%f"),
        LiteralKind::Number(Primitive::Double) => Some("%lf"),
        LiteralKind::Number(Primitive::UInt) => Some("%u"),
        LiteralKind::Address => Some("%s"),
        _ => None,
    }
}

/// The kind of value that a global of type `t` holds: aliases and tags are
/// looked through; pointers and records are composite.
pub open spec fn literal_kind_of(t: CType) -> LiteralKind
    decreases t,
{
    match t.kind {
        TypeKind::Primitive(p) => LiteralKind::Number(p),
        TypeKind::Typedef(u) => literal_kind_of(*u),
        TypeKind::Elaborated(u) => literal_kind_of(*u),
        _ => LiteralKind::Composite,
    }
}

/// The kind of value that a global of type `t` holds.
pub fn literal_kind(t: &CType) -> (r: LiteralKind)
    ensures
        r == literal_kind_of(*t),
    decreases t,
{
    match &t.kind {
        TypeKind::Primitive(p) => LiteralKind::Number(*p),
        TypeKind::Typedef(u) => literal_kind(u),
        TypeKind::Elaborated(u) => literal_kind(u),
        _ => LiteralKind::Composite,
    }
}

} // verus!
