//! The shared program model: modules made of type declarations and
//! functions, independent of the source language they came from.

use vstd::prelude::*;

verus! {

/// Whether a type declaration came from a Rust `struct` or a TypeScript `interface`.
#[derive(Debug, Clone, Copy, PartialEq, Eq)]
pub enum TypeKind {
    Struct,
    Interface,
}

/// A type as the model knows it.
#[derive(Debug, Clone, PartialEq, Eq)]
pub enum TypeRef {
    Number,
    String,
    Bool,
    Custom(String),
}

/// A named, typed struct field.
#[derive(Debug, Clone, PartialEq, Eq)]
pub struct Field {
    pub name: String,
    pub ty: TypeRef,
}

/// A struct or interface declaration.
#[derive(Debug, Clone, PartialEq, Eq)]
pub struct TypeDecl {
    pub name: String,
    pub kind: TypeKind,
    pub fields: Vec<Field>,
}

/// A named, typed function parameter.
#[derive(Debug, Clone, PartialEq, Eq)]
pub struct Param {
    pub name: String,
    pub ty: TypeRef,
}

/// Special roles a function can be tagged with; the emitters give
/// tagged functions a fixed, hand-written body.
#[derive(Debug, Clone, Copy, PartialEq, Eq)]
pub enum FunctionKind {
    Normal,
    HelloWorldMain,
    HelloWorldAdd,
    NeuralNetMain,
    AstV2ConvertRustFileToTs,
    AstV2ConvertTsFileToRust,
    ConverterConvertType,
    ConverterConvertIrType,
    ConverterTsPathToString,
}

/// A function signature together with its body, one statement per line.
#[derive(Debug, Clone, PartialEq, Eq)]
pub struct Function {
    pub name: String,
    pub params: Vec<Param>,
    pub return_type: Option<TypeRef>,
    pub kind: FunctionKind,
    pub body: Vec<String>,
}

/// A source file: its name, its types and its functions, in order.
#[derive(Debug, Clone, PartialEq, Eq)]
pub struct Module {
    pub name: String,
    pub types: Vec<TypeDecl>,
    pub functions: Vec<Function>,
}

/// Mathematical value of a [`TypeRef`].
pub enum TypeRefV {
    Number,
    Str,
    Bool,
    Custom(Seq<char>),
}

pub struct FieldV {
    pub name: Seq<char>,
    pub ty: TypeRefV,
}

pub struct TypeDeclV {
    pub name: Seq<char>,
    pub kind: TypeKind,
    pub fields: Seq<FieldV>,
}

pub struct ParamV {
    pub name: Seq<char>,
    pub ty: TypeRefV,
}

pub struct FunctionV {
    pub name: Seq<char>,
    pub params: Seq<ParamV>,
    pub return_type: Option<TypeRefV>,
    pub kind: FunctionKind,
    pub body: Seq<Seq<char>>,
}

pub struct ModuleV {
    pub name: Seq<char>,
    pub types: Seq<TypeDeclV>,
    pub functions: Seq<FunctionV>,
}

impl View for TypeRef {
    type V = TypeRefV;

    open spec fn view(&self) -> TypeRefV {
        match self {
            TypeRef::Number => TypeRefV::Number,
            TypeRef::String => TypeRefV::Str,
            TypeRef::Bool => TypeRefV::Bool,
            TypeRef::Custom(s) => TypeRefV::Custom(s@),
        }
    }
}

impl View for Field {
    type V = FieldV;

    open spec fn view(&self) -> FieldV {
        FieldV { name: self.name@, ty: self.ty@ }
    }
}

impl View for TypeDecl {
    type V = TypeDeclV;

    open spec fn view(&self) -> TypeDeclV {
        TypeDeclV {
            name: self.name@,
            kind: self.kind,
            fields: self.fields@.map_values(|f: Field| f@),
        }
    }
}

impl View for Param {
    type V = ParamV;

    open spec fn view(&self) -> ParamV {
        ParamV { name: self.name@, ty: self.ty@ }
    }
}

/// The view of an optional type.
pub open spec fn opt_type_view(t: Option<TypeRef>) -> Option<TypeRefV> {
    match t {
        Some(t) => Some(t@),
        None => None,
    }
}

/// The views of a list of strings.
pub open spec fn lines_view(v: Seq<String>) -> Seq<Seq<char>> {
    v.map_values(|s: String| s@)
}

impl View for Function {
    type V = FunctionV;

    open spec fn view(&self) -> FunctionV {
        FunctionV {
            name: self.name@,
            params: self.params@.map_values(|p: Param| p@),
            return_type: opt_type_view(self.return_type),
            kind: self.kind,
            body: lines_view(self.body@),
        }
    }
}

impl View for Module {
    type V = ModuleV;

    open spec fn view(&self) -> ModuleV {
        ModuleV {
            name: self.name@,
            types: self.types@.map_values(|t: TypeDecl| t@),
            functions: self.functions@.map_values(|f: Function| f@),
        }
    }
}

/// A copy of a list of strings with the same views.
pub fn copy_lines(v: &Vec<String>) -> (r: Vec<String>)
    ensures
        lines_view(r@) == lines_view(v@),
{
    let mut out: Vec<String> = Vec::new();
    let mut i: usize = 0;
    while i < v.len()
        invariant
            i <= v@.len(),
            out@.len() == i,
            forall|k: int| 0 <= k < i ==> out@[k]@ == v@[k]@,
        decreases v@.len() - i,
    {
        out.push(v[i].clone());
        i += 1;
    }
    assert(lines_view(out@) =~= lines_view(v@));
    out
}

} // verus!
