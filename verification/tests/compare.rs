use rust_to_ts::ast::{Field, Function, FunctionKind, Module, Param, TypeDecl, TypeKind, TypeRef};
use rust_to_ts::compare::{compare_modules, CompareLine};

fn f(name: &str, params: Vec<Param>, ret: Option<TypeRef>) -> Function {
    Function { name: name.to_string(), params, return_type: ret, kind: FunctionKind::Normal, body: vec![] }
}

fn p(name: &str, ty: TypeRef) -> Param {
    Param { name: name.to_string(), ty }
}

#[test]
fn modules_compare_by_name() {
    let rust_mod = Module {
        name: "m".to_string(),
        types: vec![
            TypeDecl {
                name: "P".to_string(),
                kind: TypeKind::Struct,
                fields: vec![
                    Field { name: "x".to_string(), ty: TypeRef::Number },
                    Field { name: "s".to_string(), ty: TypeRef::Custom("Vec<u8>".to_string()) },
                    Field { name: "gone".to_string(), ty: TypeRef::Bool },
                ],
            },
            TypeDecl { name: "Q".to_string(), kind: TypeKind::Struct, fields: vec![] },
        ],
        functions: vec![
            f("add", vec![p("a", TypeRef::Number)], Some(TypeRef::Number)),
            f("main", vec![], None),
            f("only_rust", vec![], None),
        ],
    };
    let ts_mod = Module {
        name: "m".to_string(),
        types: vec![TypeDecl {
            name: "P".to_string(),
            kind: TypeKind::Interface,
            fields: vec![
                Field { name: "s".to_string(), ty: TypeRef::String },
                Field { name: "x".to_string(), ty: TypeRef::Number },
            ],
        }],
        functions: vec![f("main", vec![], Some(TypeRef::Bool)), f("add", vec![p("a", TypeRef::Number)], Some(TypeRef::Number))],
    };
    let r = compare_modules(&rust_mod, &ts_mod);
    assert_eq!(r.len(), 8);
    assert!(matches!(&r[0], CompareLine::TypeKinds { name, rust: TypeKind::Struct, ts: TypeKind::Interface } if name == "P"));
    assert!(matches!(&r[1], CompareLine::FieldTypes { name, rust: TypeRef::Number, ts: TypeRef::Number, same: true } if name == "x"));
    assert!(matches!(&r[2], CompareLine::FieldTypes { name, ts: TypeRef::String, same: false, .. } if name == "s"));
    assert!(matches!(&r[3], CompareLine::FieldMissing { name } if name == "gone"));
    assert!(matches!(&r[4], CompareLine::TypeMissing { name } if name == "Q"));
    assert!(matches!(&r[5], CompareLine::FunctionStatus { name, params_ok: true, return_ok: true } if name == "add"));
    assert!(matches!(&r[6], CompareLine::FunctionStatus { name, params_ok: true, return_ok: false } if name == "main"));
    assert!(matches!(&r[7], CompareLine::FunctionMissing { name } if name == "only_rust"));
}
