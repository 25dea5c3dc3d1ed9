//! The derive's decisions for a worked example struct.

use borrow::derive::{
    get_bounds, get_params, meta_derive, partial_borrow_derive, FieldDef, GenericParam,
    StructDef,
};

fn ctx_def() -> StructDef {
    let field = |name: &str, ty: &str| FieldDef {
        vis: "pub".to_string(),
        name: name.to_string(),
        ty: ty.to_string(),
    };
    StructDef {
        ident: "Ctx".to_string(),
        generics: vec![
            GenericParam::Lifetime("t".to_string()),
            GenericParam::Type {
                ident: "T".to_string(),
                bounds: Some("T: Debug".to_string()),
            },
        ],
        where_bounds: vec![],
        reexport_path: "crate".to_string(),
        fields: vec![
            field("version", "&'t T"),
            field("geometry", "GeometryCtx"),
            field("material", "MaterialCtx"),
            field("mesh", "MeshCtx"),
            field("scene", "SceneCtx"),
        ],
    }
}

#[test]
fn params_list_lifetimes_before_types() {
    let params = get_params(&ctx_def());
    assert_eq!(params, vec!["t".to_string(), "T".to_string()]);
}

#[test]
fn bounds_list_inline_bounds_then_where_clauses() {
    let mut def = ctx_def();
    def.where_bounds.push("T: Clone".to_string());
    let bounds = get_bounds(&def);
    assert_eq!(bounds, vec!["T: Debug".to_string(), "T: Clone".to_string()]);
}

#[test]
fn generated_names_follow_the_struct() {
    let out = partial_borrow_derive(&ctx_def());
    assert_eq!(out.ref_ident, "CtxRef");
    assert_eq!(out.macro_ident, "CtxMacro");
    assert_eq!(
        out.field_params,
        vec!["__Version", "__Geometry", "__Material", "__Mesh", "__Scene"]
    );
    assert_eq!(out.target_params[0], "__Version__Target");
    assert_eq!(out.rest_params[0], "__Version__Rest");
    assert_eq!(out.rest_bindings[0], "__version__rest");
    assert_eq!(out.borrow_fns[1], "borrow_geometry");
    assert_eq!(out.borrow_mut_fns[1], "borrow_geometry_mut");
    assert_eq!(
        out.field_labels,
        vec!["version", "geometry", "material", "mesh", "scene"]
    );
}

#[test]
fn meta_lists_instantiate_each_field() {
    let meta = meta_derive(&ctx_def());
    assert_eq!(meta.fields_ty[0], "&'t T");
    assert_eq!(meta.fields_hidden[3], "borrow::Hidden");
    assert_eq!(meta.fields_ref[1], "&'__a GeometryCtx");
    assert_eq!(meta.fields_mut[1], "&'__a mut GeometryCtx");
}

#[test]
fn snake_case_fields_get_camel_case_parameters() {
    let mut def = ctx_def();
    def.fields.push(FieldDef {
        vis: String::new(),
        name: "edge_list".to_string(),
        ty: "Vec<usize>".to_string(),
    });
    let out = partial_borrow_derive(&def);
    assert_eq!(out.field_params[5], "__EdgeList");
    assert_eq!(out.borrow_mut_fns[5], "borrow_edge_list_mut");
}
