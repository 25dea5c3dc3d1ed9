//! The derive transformation.
//!
//! For a struct with named fields, the derive emits a parallel
//! reference-struct type with one type parameter per field, trait
//! implementations that narrow it, a declarative macro resolving selector
//! lists into its instantiations, and per-field borrow accessors. What is
//! verified here are the decisions that transformation makes from the
//! struct's description: the generated names, the parameter lists and their
//! order, and the per-field instantiation lists. Rendering these decisions
//! as source text is left to unverified callers.

use vstd::prelude::*;
use crate::frontend::{camel_of, snake_to_camel, internal};
use crate::report::views_of;

verus! {

/// One generic parameter of the user struct.
#[derive(Debug, Clone)]
pub enum GenericParam {
    /// A lifetime parameter, without the leading tick.
    Lifetime(String),
    /// A type parameter, with the full inline bound text (`T: Debug`) when
    /// one was written on it.
    Type { ident: String, bounds: Option<String> },
}

/// One named field of the user struct.
#[derive(Debug, Clone)]
pub struct FieldDef {
    /// The field's visibility, as written (possibly empty).
    pub vis: String,
    /// The field's name.
    pub name: String,
    /// The field's type, as written.
    pub ty: String,
}

/// The description of a struct the derive runs on.
#[derive(Debug, Clone)]
pub struct StructDef {
    /// The struct's name.
    pub ident: String,
    /// Its generic parameters, in declaration order.
    pub generics: Vec<GenericParam>,
    /// The predicates of its `where` clause, as written.
    pub where_bounds: Vec<String>,
    /// The path of the module the generated macro is re-exported from.
    pub reexport_path: String,
    /// Its named fields, in declaration order.
    pub fields: Vec<FieldDef>,
}

/// The lifetime parameters, in order.
pub open spec fn lifetimes_of(g: Seq<GenericParam>) -> Seq<Seq<char>>
    decreases g.len(),
{
    if g.len() == 0 {
        Seq::empty()
    } else {
        let pre = lifetimes_of(g.drop_last());
        match g.last() {
            GenericParam::Lifetime(l) => pre.push(l@),
            GenericParam::Type { .. } => pre,
        }
    }
}

/// The type parameter names, in order.
pub open spec fn type_idents_of(g: Seq<GenericParam>) -> Seq<Seq<char>>
    decreases g.len(),
{
    if g.len() == 0 {
        Seq::empty()
    } else {
        let pre = type_idents_of(g.drop_last());
        match g.last() {
            GenericParam::Lifetime(_) => pre,
            GenericParam::Type { ident, .. } => pre.push(ident@),
        }
    }
}

/// The inline bound texts of the bounded type parameters, in order.
pub open spec fn inline_bounds_of(g: Seq<GenericParam>) -> Seq<Seq<char>>
    decreases g.len(),
{
    if g.len() == 0 {
        Seq::empty()
    } else {
        let pre = inline_bounds_of(g.drop_last());
        match g.last() {
            GenericParam::Lifetime(_) => pre,
            GenericParam::Type { bounds, .. } => match bounds {
                Some(b) => pre.push(b@),
                None => pre,
            },
        }
    }
}

/// Collects the generic parameter list the generated items use: every
/// lifetime first, then every type parameter, each in declaration order.
pub fn get_params(def: &StructDef) -> (r: Vec<String>)
    ensures
        views_of(r@) =~= lifetimes_of(def.generics@) + type_idents_of(def.generics@),
{
    let mut lifetimes: Vec<String> = Vec::new();
    let mut types: Vec<String> = Vec::new();
    let n = def.generics.len();
    let mut i: usize = 0;
    proof {
        assert(def.generics@.take(0) =~= Seq::<GenericParam>::empty());
        assert(views_of(lifetimes@) =~= lifetimes_of(def.generics@.take(0)));
        assert(views_of(types@) =~= type_idents_of(def.generics@.take(0)));
    }
    while i < n
        invariant
            i <= n,
            n == def.generics@.len(),
            views_of(lifetimes@) =~= lifetimes_of(def.generics@.take(i as int)),
            views_of(types@) =~= type_idents_of(def.generics@.take(i as int)),
        decreases n - i,
    {
        let ghost pre = def.generics@.take(i as int);
        match &def.generics[i] {
            GenericParam::Lifetime(l) => {
                lifetimes.push(clone_str(l));
            },
            GenericParam::Type { ident, .. } => {
                types.push(clone_str(ident));
            },
        }
        proof {
            assert(def.generics@.take(i + 1).drop_last() =~= pre);
            assert(def.generics@.take(i + 1).last() == def.generics@[i as int]);
        }
        i = i + 1;
    }
    proof {
        assert(def.generics@.take(n as int) =~= def.generics@);
    }
    let mut r = lifetimes;
    let ghost lv = views_of(r@);
    let mut j: usize = 0;
    let m = types.len();
    while j < m
        invariant
            j <= m,
            m == types@.len(),
            views_of(types@) =~= type_idents_of(def.generics@),
            views_of(r@) =~= lv + views_of(types@).take(j as int),
        decreases m - j,
    {
        let ghost prev = views_of(r@);
        r.push(clone_str(&types[j]));
        proof {
            assert(views_of(r@) =~= prev.push(types@[j as int]@));
            assert(views_of(types@).take(j + 1) =~= views_of(types@).take(j as int).push(
                types@[j as int]@,
            ));
        }
        j = j + 1;
    }
    proof {
        assert(views_of(types@).take(m as int) =~= views_of(types@));
        assert(views_of(r@) =~= lifetimes_of(def.generics@) + type_idents_of(def.generics@));
    }
    r
}

/// Collects the bound list the generated items repeat: the inline bounds of
/// the type parameters, then the `where`-clause predicates, each in
/// declaration order.
pub fn get_bounds(def: &StructDef) -> (r: Vec<String>)
    ensures
        views_of(r@) =~= inline_bounds_of(def.generics@) + views_of(def.where_bounds@),
{
    let mut r: Vec<String> = Vec::new();
    let n = def.generics.len();
    let mut i: usize = 0;
    proof {
        assert(def.generics@.take(0) =~= Seq::<GenericParam>::empty());
        assert(views_of(r@) =~= inline_bounds_of(def.generics@.take(0)));
    }
    while i < n
        invariant
            i <= n,
            n == def.generics@.len(),
            views_of(r@) =~= inline_bounds_of(def.generics@.take(i as int)),
        decreases n - i,
    {
        let ghost pre = def.generics@.take(i as int);
        match &def.generics[i] {
            GenericParam::Type { bounds: Some(b), .. } => {
                r.push(clone_str(b));
            },
            _ => {},
        }
        proof {
            assert(def.generics@.take(i + 1).drop_last() =~= pre);
            assert(def.generics@.take(i + 1).last() == def.generics@[i as int]);
        }
        i = i + 1;
    }
    proof {
        assert(def.generics@.take(n as int) =~= def.generics@);
    }
    let ghost bv = views_of(r@);
    let m = def.where_bounds.len();
    let mut j: usize = 0;
    while j < m
        invariant
            j <= m,
            m == def.where_bounds@.len(),
            views_of(r@) =~= bv + views_of(def.where_bounds@).take(j as int),
        decreases m - j,
    {
        let ghost prev = views_of(r@);
        r.push(clone_str(&def.where_bounds[j]));
        proof {
            assert(views_of(r@) =~= prev.push(def.where_bounds@[j as int]@));
            assert(views_of(def.where_bounds@).take(j + 1) =~= views_of(
                def.where_bounds@,
            ).take(j as int).push(def.where_bounds@[j as int]@));
        }
        j = j + 1;
    }
    proof {
        assert(views_of(def.where_bounds@).take(m as int) =~= views_of(def.where_bounds@));
    }
    r
}

/// The name of the generated reference-struct type.
pub open spec fn ref_ident_of(ident: Seq<char>) -> Seq<char> {
    ident + "Ref"@
}

/// The name under which the generated declarative macro is defined.
pub open spec fn macro_ident_of(ident: Seq<char>) -> Seq<char> {
    ident + "Macro"@
}

/// The reference-struct type parameter standing for one field.
pub open spec fn field_param_of(name: Seq<char>) -> Seq<char> {
    "__"@ + camel_of(name)
}

/// The narrowing target type parameter for one field.
pub open spec fn target_param_of(name: Seq<char>) -> Seq<char> {
    field_param_of(name) + "__Target"@
}

/// The narrowing rest type parameter for one field.
pub open spec fn rest_param_of(name: Seq<char>) -> Seq<char> {
    field_param_of(name) + "__Rest"@
}

/// The binding that carries one field's rest slot through the narrowing.
pub open spec fn rest_binding_of(name: Seq<char>) -> Seq<char> {
    "__"@ + name + "__rest"@
}

/// The shared borrow accessor generated for one field.
pub open spec fn borrow_fn_of(name: Seq<char>) -> Seq<char> {
    "borrow_"@ + name
}

/// The mutable borrow accessor generated for one field.
pub open spec fn borrow_mut_fn_of(name: Seq<char>) -> Seq<char> {
    "borrow_"@ + name + "_mut"@
}

/// The field-type instantiation lists the reflection impls expose: the
/// field types themselves, the all-hidden list, and the all-shared and
/// all-mutable reference lists under the generated lifetime.
#[derive(Debug, Clone)]
pub struct MetaOutput {
    /// The field types, in order.
    pub fields_ty: Vec<String>,
    /// `borrow::Hidden`, once per field.
    pub fields_hidden: Vec<String>,
    /// `&'__a` in front of each field type.
    pub fields_ref: Vec<String>,
    /// `&'__a mut` in front of each field type.
    pub fields_mut: Vec<String>,
}

/// Computes the field-type instantiation lists of the reflection impls.
pub fn meta_derive(def: &StructDef) -> (r: MetaOutput)
    ensures
        r.fields_ty@.len() == def.fields@.len(),
        r.fields_hidden@.len() == def.fields@.len(),
        r.fields_ref@.len() == def.fields@.len(),
        r.fields_mut@.len() == def.fields@.len(),
        forall|i: int|
            0 <= i < def.fields@.len() ==> (#[trigger] r.fields_ty@[i])@ =~= def.fields@[i].ty@,
        forall|i: int|
            0 <= i < def.fields@.len() ==> (#[trigger] r.fields_hidden@[i])@
                =~= "borrow::Hidden"@,
        forall|i: int|
            0 <= i < def.fields@.len() ==> (#[trigger] r.fields_ref@[i])@ =~= "&'__a "@
                + def.fields@[i].ty@,
        forall|i: int|
            0 <= i < def.fields@.len() ==> (#[trigger] r.fields_mut@[i])@ =~= "&'__a mut "@
                + def.fields@[i].ty@,
{
    let mut fields_ty: Vec<String> = Vec::new();
    let mut fields_hidden: Vec<String> = Vec::new();
    let mut fields_ref: Vec<String> = Vec::new();
    let mut fields_mut: Vec<String> = Vec::new();
    let n = def.fields.len();
    let mut i: usize = 0;
    while i < n
        invariant
            i <= n,
            n == def.fields@.len(),
            fields_ty@.len() == i,
            fields_hidden@.len() == i,
            fields_ref@.len() == i,
            fields_mut@.len() == i,
            forall|k: int|
                0 <= k < i ==> (#[trigger] fields_ty@[k])@ =~= def.fields@[k].ty@,
            forall|k: int|
                0 <= k < i ==> (#[trigger] fields_hidden@[k])@ =~= "borrow::Hidden"@,
            forall|k: int|
                0 <= k < i ==> (#[trigger] fields_ref@[k])@ =~= "&'__a "@ + def.fields@[k].ty@,
            forall|k: int|
                0 <= k < i ==> (#[trigger] fields_mut@[k])@ =~= "&'__a mut "@
                    + def.fields@[k].ty@,
        decreases n - i,
    {
        fields_ty.push(clone_str(&def.fields[i].ty));
        fields_hidden.push(("borrow::Hidden").to_owned());
        let mut by_ref = ("&'__a ").to_owned();
        by_ref.append(def.fields[i].ty.as_str());
        fields_ref.push(by_ref);
        let mut by_mut = ("&'__a mut ").to_owned();
        by_mut.append(def.fields[i].ty.as_str());
        fields_mut.push(by_mut);
        i = i + 1;
    }
    MetaOutput { fields_ty, fields_hidden, fields_ref, fields_mut }
}

/// Everything the derive decides from the struct's description: the
/// generated names and parameter lists, in field order.
#[derive(Debug, Clone)]
pub struct DeriveOutput {
    /// The reference-struct type's name.
    pub ref_ident: String,
    /// The generated declarative macro's defining name.
    pub macro_ident: String,
    /// The user struct's generic parameter list, lifetimes first.
    pub params: Vec<String>,
    /// The bound list the generated impls repeat.
    pub bounds: Vec<String>,
    /// The per-field type parameters of the reference-struct.
    pub field_params: Vec<String>,
    /// The per-field narrowing target parameters.
    pub target_params: Vec<String>,
    /// The per-field narrowing rest parameters.
    pub rest_params: Vec<String>,
    /// The per-field rest bindings of the narrowing body.
    pub rest_bindings: Vec<String>,
    /// The per-field shared borrow accessors.
    pub borrow_fns: Vec<String>,
    /// The per-field mutable borrow accessors.
    pub borrow_mut_fns: Vec<String>,
    /// The field names, as the labels the built wrappers carry.
    pub field_labels: Vec<String>,
    /// The reflection instantiation lists.
    pub meta: MetaOutput,
}

/// Computes every name and list the derive generates for one struct: the
/// reference-struct and macro names, the parameter and bound lists, and one
/// entry per field for the type parameters, narrowing bindings, borrow
/// accessors and wrapper labels.
pub fn partial_borrow_derive(def: &StructDef) -> (r: DeriveOutput)
    ensures
        r.ref_ident@ =~= ref_ident_of(def.ident@),
        r.macro_ident@ =~= macro_ident_of(def.ident@),
        views_of(r.params@) =~= lifetimes_of(def.generics@) + type_idents_of(def.generics@),
        views_of(r.bounds@) =~= inline_bounds_of(def.generics@) + views_of(def.where_bounds@),
        r.field_params@.len() == def.fields@.len(),
        r.target_params@.len() == def.fields@.len(),
        r.rest_params@.len() == def.fields@.len(),
        r.rest_bindings@.len() == def.fields@.len(),
        r.borrow_fns@.len() == def.fields@.len(),
        r.borrow_mut_fns@.len() == def.fields@.len(),
        r.field_labels@.len() == def.fields@.len(),
        forall|i: int|
            0 <= i < def.fields@.len() ==> (#[trigger] r.field_params@[i])@ =~= field_param_of(
                def.fields@[i].name@,
            ),
        forall|i: int|
            0 <= i < def.fields@.len() ==> (#[trigger] r.target_params@[i])@ =~= target_param_of(
                def.fields@[i].name@,
            ),
        forall|i: int|
            0 <= i < def.fields@.len() ==> (#[trigger] r.rest_params@[i])@ =~= rest_param_of(
                def.fields@[i].name@,
            ),
        forall|i: int|
            0 <= i < def.fields@.len() ==> (#[trigger] r.rest_bindings@[i])@ =~= rest_binding_of(
                def.fields@[i].name@,
            ),
        forall|i: int|
            0 <= i < def.fields@.len() ==> (#[trigger] r.borrow_fns@[i])@ =~= borrow_fn_of(
                def.fields@[i].name@,
            ),
        forall|i: int|
            0 <= i < def.fields@.len() ==> (#[trigger] r.borrow_mut_fns@[i])@ =~= borrow_mut_fn_of(
                def.fields@[i].name@,
            ),
        forall|i: int|
            0 <= i < def.fields@.len() ==> (#[trigger] r.field_labels@[i])@
                =~= def.fields@[i].name@,
        r.meta.fields_ty@.len() == def.fields@.len(),
        r.meta.fields_hidden@.len() == def.fields@.len(),
        r.meta.fields_ref@.len() == def.fields@.len(),
        r.meta.fields_mut@.len() == def.fields@.len(),
        forall|i: int|
            0 <= i < def.fields@.len() ==> (#[trigger] r.meta.fields_ty@[i])@
                =~= def.fields@[i].ty@,
        forall|i: int|
            0 <= i < def.fields@.len() ==> (#[trigger] r.meta.fields_hidden@[i])@
                =~= "borrow::Hidden"@,
        forall|i: int|
            0 <= i < def.fields@.len() ==> (#[trigger] r.meta.fields_ref@[i])@ =~= "&'__a "@
                + def.fields@[i].ty@,
        forall|i: int|
            0 <= i < def.fields@.len() ==> (#[trigger] r.meta.fields_mut@[i])@ =~= "&'__a mut "@
                + def.fields@[i].ty@,
{
    let mut ref_ident = clone_str(&def.ident);
    ref_ident.append("Ref");
    let mut macro_ident = clone_str(&def.ident);
    macro_ident.append("Macro");
    let params = get_params(def);
    let bounds = get_bounds(def);
    let meta = meta_derive(def);
    let mut field_params: Vec<String> = Vec::new();
    let mut target_params: Vec<String> = Vec::new();
    let mut rest_params: Vec<String> = Vec::new();
    let mut rest_bindings: Vec<String> = Vec::new();
    let mut borrow_fns: Vec<String> = Vec::new();
    let mut borrow_mut_fns: Vec<String> = Vec::new();
    let mut field_labels: Vec<String> = Vec::new();
    let n = def.fields.len();
    let mut i: usize = 0;
    while i < n
        invariant
            i <= n,
            n == def.fields@.len(),
            field_params@.len() == i,
            target_params@.len() == i,
            rest_params@.len() == i,
            rest_bindings@.len() == i,
            borrow_fns@.len() == i,
            borrow_mut_fns@.len() == i,
            field_labels@.len() == i,
            forall|k: int|
                0 <= k < i ==> (#[trigger] field_params@[k])@ =~= field_param_of(
                    def.fields@[k].name@,
                ),
            forall|k: int|
                0 <= k < i ==> (#[trigger] target_params@[k])@ =~= target_param_of(
                    def.fields@[k].name@,
                ),
            forall|k: int|
                0 <= k < i ==> (#[trigger] rest_params@[k])@ =~= rest_param_of(
                    def.fields@[k].name@,
                ),
            forall|k: int|
                0 <= k < i ==> (#[trigger] rest_bindings@[k])@ =~= rest_binding_of(
                    def.fields@[k].name@,
                ),
            forall|k: int|
                0 <= k < i ==> (#[trigger] borrow_fns@[k])@ =~= borrow_fn_of(
                    def.fields@[k].name@,
                ),
            forall|k: int|
                0 <= k < i ==> (#[trigger] borrow_mut_fns@[k])@ =~= borrow_mut_fn_of(
                    def.fields@[k].name@,
                ),
            forall|k: int|
                0 <= k < i ==> (#[trigger] field_labels@[k])@ =~= def.fields@[k].name@,
        decreases n - i,
    {
        let name = &def.fields[i].name;
        let camel = snake_to_camel(name.as_str());
        let param = internal(camel.as_str());
        let mut target = clone_str(&param);
        target.append("__Target");
        let mut rest = clone_str(&param);
        rest.append("__Rest");
        let mut rest_binding = internal(name.as_str());
        rest_binding.append("__rest");
        let mut borrow_fn = ("borrow_").to_owned();
        borrow_fn.append(name.as_str());
        let mut borrow_mut_fn = ("borrow_").to_owned();
        borrow_mut_fn.append(name.as_str());
        borrow_mut_fn.append("_mut");
        field_params.push(param);
        target_params.push(target);
        rest_params.push(rest);
        rest_bindings.push(rest_binding);
        borrow_fns.push(borrow_fn);
        borrow_mut_fns.push(borrow_mut_fn);
        field_labels.push(clone_str(name));
        i = i + 1;
    }
    DeriveOutput {
        ref_ident,
        macro_ident,
        params,
        bounds,
        field_params,
        target_params,
        rest_params,
        rest_bindings,
        borrow_fns,
        borrow_mut_fns,
        field_labels,
        meta,
    }
}

/// Clones a string, keeping its characters.
fn clone_str(s: &String) -> (r: String)
    ensures
        r@ == s@,
{
    s.clone()
}

} // verus!
