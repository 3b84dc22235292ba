use sway_core::abi::Property;
use sway_core::attribute::{Annotated, Attribute, AttributeDecl, HashToken, Parens, Punctuated, SquareBrackets};
use sway_core::comments::{Comments, CommentsOptions};
use sway_core::enum_decl::{TypedEnumDeclaration, TypedEnumVariant};
use sway_core::error::CompileError;
use sway_core::items::{Items, MethodSignature};
use sway_core::language::Visibility;
use sway_core::namespace::{Module, Namespace, Root};
use sway_core::purity::{promote_purity, Purity};
use sway_core::span::{Ident, Span};
use sway_core::struct_decl::{struct_monomorphize_compose_law, TypedStructDeclaration, TypedStructField};
use sway_core::enum_decl::enum_monomorphize_compose_law;
use sway_core::type_engine::{clone_info, compose_mappings, substitution_compose_law, IntegerBits, TypeEngine, TypeInfo, TypeParameter};

fn ident(text: &str, start: usize, end: usize) -> Ident {
    Ident::new(text.to_owned(), Span { start, end })
}

fn u64_info() -> TypeInfo {
    TypeInfo::UnsignedInteger { bits: IntegerBits::SixtyFour }
}

fn sample_struct(engine: &mut TypeEngine, span: Span, field_spans: (Span, Span)) -> TypedStructDeclaration {
    let u64_id = engine.insert_type(u64_info());
    let bool_id = engine.insert_type(TypeInfo::Boolean);
    TypedStructDeclaration {
        name: ident("Point", span.start, span.end),
        fields: vec![
            TypedStructField { name: ident("a", 0, 1), type_id: u64_id, span: field_spans.0 },
            TypedStructField { name: ident("b", 0, 1), type_id: bool_id, span: field_spans.1 },
        ],
        type_parameters: Vec::new(),
        visibility: Visibility::Public,
        span,
    }
}

#[test]
fn intern_is_canonical_for_equal_descriptions() {
    let mut engine = TypeEngine::new();
    let a = engine.insert_type(TypeInfo::Boolean);
    let b = engine.insert_type(TypeInfo::Boolean);
    assert_eq!(a, b);

    // equal generics written at different source positions intern alike
    let g1 = engine.insert_type(TypeInfo::UnknownGeneric { name: ident("T", 0, 1) });
    let g2 = engine.insert_type(TypeInfo::UnknownGeneric { name: ident("T", 40, 41) });
    assert_eq!(g1, g2);
    assert!(engine.type_ids_equal(g1, g2));
    assert_ne!(a, g1);
}

#[test]
fn interned_compound_descriptions_collapse() {
    let mut engine = TypeEngine::new();
    let d1 = sample_struct(&mut engine, Span { start: 0, end: 5 }, (Span { start: 1, end: 2 }, Span { start: 3, end: 4 }));
    let d2 = sample_struct(&mut engine, Span { start: 90, end: 95 }, (Span { start: 91, end: 92 }, Span { start: 93, end: 94 }));
    let id1 = d1.type_id(&mut engine);
    let id2 = d2.type_id(&mut engine);
    assert_eq!(id1, id2);
    assert_eq!(d1.hash_code(&engine), d2.hash_code(&engine));
}

#[test]
fn declarations_equal_up_to_spans_and_hash_alike() {
    let mut engine = TypeEngine::new();
    let d1 = sample_struct(&mut engine, Span { start: 0, end: 5 }, (Span { start: 1, end: 2 }, Span { start: 3, end: 4 }));
    let d2 = sample_struct(&mut engine, Span { start: 70, end: 75 }, (Span { start: 71, end: 72 }, Span { start: 73, end: 74 }));
    assert!(d1.eq_in(&d2, &engine));
    assert_eq!(d1.hash_code(&engine), d2.hash_code(&engine));

    let u64_id = engine.insert_type(u64_info());
    let e1 = TypedEnumDeclaration {
        name: ident("Either", 0, 6),
        type_parameters: Vec::new(),
        variants: vec![
            TypedEnumVariant { name: ident("L", 1, 2), type_id: u64_id, tag: 0, span: Span { start: 1, end: 2 } },
            TypedEnumVariant { name: ident("R", 3, 4), type_id: u64_id, tag: 1, span: Span { start: 3, end: 4 } },
        ],
        span: Span { start: 0, end: 9 },
        visibility: Visibility::Private,
    };
    let e2 = TypedEnumDeclaration {
        name: ident("Either", 50, 56),
        type_parameters: Vec::new(),
        variants: vec![
            TypedEnumVariant { name: ident("L", 51, 52), type_id: u64_id, tag: 0, span: Span { start: 51, end: 52 } },
            TypedEnumVariant { name: ident("R", 53, 54), type_id: u64_id, tag: 1, span: Span { start: 53, end: 54 } },
        ],
        span: Span { start: 50, end: 59 },
        visibility: Visibility::Private,
    };
    assert!(e1.eq_in(&e2, &engine));
    assert_eq!(e1.hash_code(&engine), e2.hash_code(&engine));

    // a different tag is a different declaration
    let mut e3 = e2;
    e3.variants[1].tag = 7;
    assert!(!e1.eq_in(&e3, &engine));
}

fn generic_struct(engine: &mut TypeEngine) -> (TypedStructDeclaration, TypeParameter) {
    let t_id = engine.insert_type(TypeInfo::UnknownGeneric { name: ident("T", 0, 1) });
    let param = TypeParameter { name: ident("T", 0, 1), type_id: t_id };
    let decl = TypedStructDeclaration {
        name: ident("Box", 0, 3),
        fields: vec![TypedStructField { name: ident("inner", 4, 9), type_id: t_id, span: Span { start: 4, end: 9 } }],
        type_parameters: vec![param.clone()],
        visibility: Visibility::Public,
        span: Span { start: 0, end: 12 },
    };
    (decl, param)
}

#[test]
fn monomorphize_with_empty_mapping_is_a_no_op() {
    let mut engine = TypeEngine::new();
    let mut items = Items::new();
    let (decl, _param) = generic_struct(&mut engine);
    let before_fields: Vec<_> = decl.fields.iter().map(|f| (f.name.text.clone(), f.type_id)).collect();
    let empty: Vec<(TypeParameter, sway_core::type_engine::TypeId)> = Vec::new();
    let mono = decl.monomorphize_inner(&empty, &mut engine, &mut items);
    let after_fields: Vec<_> = mono.fields.iter().map(|f| (f.name.text.clone(), f.type_id)).collect();
    assert_eq!(before_fields, after_fields);
    assert_eq!(mono.name.text, "Box");
    assert_eq!(items.methods.len(), 0);
}

#[test]
fn monomorphize_substitutes_matching_fields() {
    let mut engine = TypeEngine::new();
    let mut items = Items::new();
    let (decl, param) = generic_struct(&mut engine);
    let u64_id = engine.insert_type(u64_info());
    let mapping = vec![(param, u64_id)];
    let mono = decl.monomorphize_inner(&mapping, &mut engine, &mut items);
    // the substituted field resolves to u64 through its reference marker
    assert!(engine.type_ids_equal(mono.fields[0].type_id, u64_id));
    assert_ne!(mono.fields[0].type_id, u64_id);
}

#[test]
fn monomorphize_migrates_methods_to_the_new_type() {
    let mut engine = TypeEngine::new();
    let mut items = Items::new();
    let (decl, param) = generic_struct(&mut engine);
    let t_id = param.type_id;
    let generic_id = decl.type_id(&mut engine);
    items.register_methods(
        generic_id,
        vec![MethodSignature { name: "get".to_owned(), purity: Purity::Pure, return_type: t_id }],
    );
    let u64_id = engine.insert_type(u64_info());
    let mapping = vec![(param, u64_id)];
    let mono = decl.monomorphize_inner(&mapping, &mut engine, &mut items);
    let new_id = mono.type_id(&mut engine);
    let migrated = items.methods_of_type(&engine, new_id);
    assert_eq!(migrated.len(), 1);
    assert_eq!(migrated[0].name, "get");
    assert_eq!(migrated[0].purity, Purity::Pure);
    // the migrated return type was substituted to u64
    assert!(engine.type_ids_equal(migrated[0].return_type, u64_id));
}

#[test]
fn substituting_twice_equals_substituting_composed() {
    let mut engine = TypeEngine::new();
    let t_id = engine.insert_type(TypeInfo::UnknownGeneric { name: ident("T", 0, 1) });
    let u_id = engine.insert_type(TypeInfo::UnknownGeneric { name: ident("U", 0, 1) });
    let u64_id = engine.insert_type(u64_info());
    let p_t = TypeParameter { name: ident("T", 0, 1), type_id: t_id };
    let p_u = TypeParameter { name: ident("U", 0, 1), type_id: u_id };
    // m1 sends T to U, m2 sends U to u64
    let m1 = vec![(p_t, u_id)];
    let m2 = vec![(p_u, u64_id)];
    let (two_step, once) = substitution_compose_law(&mut engine, &m1, &m2, t_id);
    assert!(engine.type_ids_equal(two_step, once));
    assert!(engine.type_ids_equal(two_step, u64_id));

    // by hand: the composed mapping sends T straight to u64
    let composed = compose_mappings(&engine, &m1, &m2);
    assert_eq!(composed.len(), 2);
    assert_eq!(composed[0].1, u64_id);
}

#[test]
fn monomorphizing_twice_equals_monomorphizing_composed() {
    let mut engine = TypeEngine::new();
    let mut items = Items::new();
    let (decl, param_t) = generic_struct(&mut engine);
    let u_id = engine.insert_type(TypeInfo::UnknownGeneric { name: ident("U", 0, 1) });
    let u64_id = engine.insert_type(u64_info());
    let param_u = TypeParameter { name: ident("U", 0, 1), type_id: u_id };
    let m1 = vec![(param_t, u_id)];
    let m2 = vec![(param_u, u64_id)];
    let (two_step, once) = struct_monomorphize_compose_law(&mut engine, &mut items, &decl, &m1, &m2);
    assert!(two_step.eq_in(&once, &engine));
    assert!(engine.type_ids_equal(two_step.fields[0].type_id, u64_id));
    assert!(engine.type_ids_equal(once.fields[0].type_id, u64_id));

    let t2 = engine.insert_type(TypeInfo::UnknownGeneric { name: ident("T", 0, 1) });
    let enum_decl = TypedEnumDeclaration {
        name: ident("Opt", 0, 3),
        type_parameters: vec![TypeParameter { name: ident("T", 0, 1), type_id: t2 }],
        variants: vec![TypedEnumVariant { name: ident("Just", 4, 8), type_id: t2, tag: 0, span: Span { start: 4, end: 8 } }],
        span: Span { start: 0, end: 10 },
        visibility: Visibility::Public,
    };
    let m1e = vec![(TypeParameter { name: ident("T", 0, 1), type_id: t2 }, u_id)];
    let m2e = vec![(TypeParameter { name: ident("U", 0, 1), type_id: u_id }, u64_id)];
    let (etwo, eonce) = enum_monomorphize_compose_law(&mut engine, &mut items, &enum_decl, &m1e, &m2e);
    assert!(etwo.eq_in(&eonce, &engine));
    assert_eq!(etwo.variants[0].tag, 0);
    assert!(engine.type_ids_equal(etwo.variants[0].type_id, u64_id));
}

#[test]
fn reinterning_collapses_substitution_duplicates() {
    let mut engine = TypeEngine::new();
    let t_id = engine.insert_type(TypeInfo::UnknownGeneric { name: ident("T", 0, 1) });
    let u64_id = engine.insert_type(u64_info());
    let mapping = vec![(TypeParameter { name: ident("T", 0, 1), type_id: t_id }, u64_id)];
    // substitution leaves a distinct reference identifier for the same type
    let ref_id = engine.substitute_type_id(&mapping, t_id);
    assert_ne!(ref_id, u64_id);
    assert!(engine.type_ids_equal(ref_id, u64_id));
    // canonically re-interning the resolved description collapses the
    // duplicate back to the original identifier
    let resolved = clone_info(engine.look_up_type_id(ref_id));
    let again = engine.insert_type(resolved);
    assert_eq!(again, u64_id);
}

#[test]
fn can_call_follows_the_lattice() {
    assert!(Purity::Pure.can_call(Purity::Pure));
    assert!(!Purity::Pure.can_call(Purity::Reads));
    assert!(!Purity::Pure.can_call(Purity::Writes));
    assert!(!Purity::Pure.can_call(Purity::ReadsWrites));
    assert!(Purity::Reads.can_call(Purity::Pure));
    assert!(Purity::Reads.can_call(Purity::Reads));
    assert!(!Purity::Reads.can_call(Purity::Writes));
    assert!(!Purity::Reads.can_call(Purity::ReadsWrites));
    assert!(Purity::Writes.can_call(Purity::Pure));
    assert!(!Purity::Writes.can_call(Purity::Reads));
    assert!(Purity::Writes.can_call(Purity::Writes));
    assert!(!Purity::Writes.can_call(Purity::ReadsWrites));
    assert!(Purity::ReadsWrites.can_call(Purity::Pure));
    assert!(Purity::ReadsWrites.can_call(Purity::Reads));
    assert!(Purity::ReadsWrites.can_call(Purity::Writes));
    assert!(Purity::ReadsWrites.can_call(Purity::ReadsWrites));
    assert_eq!(Purity::default(), Purity::Pure);
}

#[test]
fn promote_purity_unions_effects() {
    assert_eq!(promote_purity(Purity::Reads, Purity::Writes), Purity::ReadsWrites);
    assert_eq!(promote_purity(Purity::Writes, Purity::Reads), Purity::ReadsWrites);
    assert_eq!(promote_purity(Purity::ReadsWrites, Purity::Pure), Purity::ReadsWrites);
    assert_eq!(promote_purity(Purity::ReadsWrites, Purity::Reads), Purity::ReadsWrites);
    assert_eq!(promote_purity(Purity::ReadsWrites, Purity::Writes), Purity::ReadsWrites);
    assert_eq!(promote_purity(Purity::ReadsWrites, Purity::ReadsWrites), Purity::ReadsWrites);
    assert_eq!(promote_purity(Purity::Pure, Purity::Writes), Purity::Writes);
    assert_eq!(promote_purity(Purity::Pure, Purity::Pure), Purity::Pure);
    assert_eq!(promote_purity(Purity::Reads, Purity::Pure), Purity::Pure);
    assert_eq!(promote_purity(Purity::Writes, Purity::Writes), Purity::Writes);
}

fn namespace_with_root(name: &str) -> Namespace {
    let mut root = Root { module: Module::new(name.to_owned(), Visibility::Public, None) };
    Namespace::init_root(&mut root)
}

#[test]
fn scoped_entry_restores_the_previous_path() {
    let mut ns = namespace_with_root("pkg");
    let before = ns.mod_path().clone();
    let guard = ns.enter_submodule(ident("a", 0, 1), Visibility::Public, Span { start: 0, end: 1 });
    assert_eq!(ns.mod_path().len(), 1);
    assert_eq!(ns.mod_path()[0], "a");
    guard.release(&mut ns);
    assert_eq!(ns.mod_path().clone(), before);
    // the module "a" remains reachable from the root
    let path = vec!["a".to_owned()];
    assert!(ns.root_module().lookup_submodule(&path, 0).is_some());
}

#[test]
fn current_module_follows_the_cursor() {
    let empty = Namespace::new();
    assert!(empty.mod_path().is_empty());
    let mut ns = namespace_with_root("pkg");
    assert_eq!(ns.program_id().name, "pkg");
    assert_eq!(ns.module().name, "pkg");
    let guard = ns.enter_submodule(ident("a", 0, 1), Visibility::Public, Span { start: 0, end: 1 });
    assert_eq!(ns.module().name, "a");
    assert!(!ns.module().is_external);
    guard.release(&mut ns);
    assert_eq!(ns.module().name, "pkg");
}

#[test]
fn entering_twice_keeps_one_child() {
    let mut ns = namespace_with_root("pkg");
    let g1 = ns.enter_submodule(ident("a", 0, 1), Visibility::Public, Span { start: 0, end: 1 });
    g1.release(&mut ns);
    let g2 = ns.enter_submodule(ident("a", 5, 6), Visibility::Public, Span { start: 5, end: 6 });
    g2.release(&mut ns);
    assert_eq!(ns.root_module().submodules.len(), 1);
}

#[test]
fn entered_child_inherits_externality_and_template() {
    let mut top = Module::new("pkg".to_owned(), Visibility::Public, None);
    let dep = Module::new("dep".to_owned(), Visibility::Public, None);
    top.submodules.push(dep);
    let mut root = Root { module: top };
    let mut ns = Namespace::init_root(&mut root);
    // the init template now holds the external "dep" submodule
    let g1 = ns.enter_submodule(ident("a", 0, 1), Visibility::Public, Span { start: 0, end: 1 });
    // the created child was seeded from the template and is not external,
    // like its parent the root
    assert!(!ns.module().is_external);
    assert_eq!(ns.module().submodules.len(), 1);
    assert_eq!(ns.module().submodules[0].name, "dep");
    // entering the pre-existing external module leaves it untouched, and a
    // child entered beneath it inherits its externality
    let g2 = ns.enter_submodule(ident("dep", 0, 3), Visibility::Public, Span { start: 0, end: 3 });
    assert!(ns.module().is_external);
    let g3 = ns.enter_submodule(ident("inner", 0, 5), Visibility::Public, Span { start: 0, end: 5 });
    assert!(ns.module().is_external);
    g3.release(&mut ns);
    g2.release(&mut ns);
    g1.release(&mut ns);
}

#[test]
fn entering_a_sibling_leaves_the_others_alone() {
    let mut ns = namespace_with_root("pkg");
    let ga = ns.enter_submodule(ident("a", 0, 1), Visibility::Public, Span { start: 0, end: 1 });
    ga.release(&mut ns);
    let gb = ns.enter_submodule(ident("b", 2, 3), Visibility::Private, Span { start: 2, end: 3 });
    gb.release(&mut ns);
    let ga2 = ns.enter_submodule(ident("a", 4, 5), Visibility::Public, Span { start: 4, end: 5 });
    ga2.release(&mut ns);
    let subs = &ns.root_module().submodules;
    assert_eq!(subs.len(), 2);
    assert_eq!(subs[0].name, "a");
    assert_eq!(subs[1].name, "b");
    assert_eq!(subs[1].visibility, Visibility::Private);
}

#[test]
fn push_and_pop_manage_the_path() {
    let mut ns = namespace_with_root("pkg");
    ns.push_submodule(ident("x", 0, 1), Visibility::Private, Span { start: 0, end: 1 });
    ns.push_submodule(ident("y", 2, 3), Visibility::Private, Span { start: 2, end: 3 });
    assert_eq!(ns.mod_path().clone(), vec!["x".to_owned(), "y".to_owned()]);
    ns.pop_submodule();
    assert_eq!(ns.mod_path().clone(), vec!["x".to_owned()]);
    ns.pop_submodule();
    assert!(ns.mod_path().is_empty());
    ns.pop_submodule();
    assert!(ns.mod_path().is_empty());
}

#[test]
fn submodule_of_compares_against_the_current_path() {
    let mut ns = namespace_with_root("pkg");
    ns.push_submodule(ident("x", 0, 1), Visibility::Private, Span { start: 0, end: 1 });
    ns.push_submodule(ident("y", 2, 3), Visibility::Private, Span { start: 2, end: 3 });

    let prefix = vec!["pkg".to_owned(), "x".to_owned()];
    assert!(ns.module_is_submodule_of(&prefix, false));

    let same = vec!["pkg".to_owned(), "x".to_owned(), "y".to_owned()];
    assert!(!ns.module_is_submodule_of(&same, false));
    assert!(ns.module_is_submodule_of(&same, true));

    let other = vec!["other".to_owned(), "x".to_owned()];
    assert!(!ns.module_is_submodule_of(&other, false));
    assert!(!ns.module_is_submodule_of(&other, true));

    let deeper = vec!["pkg".to_owned(), "x".to_owned(), "y".to_owned(), "z".to_owned()];
    assert!(!ns.module_is_submodule_of(&deeper, true));
}

#[test]
fn external_modules_are_those_of_other_packages() {
    let ns = namespace_with_root("pkg");
    assert!(!ns.module_is_external(&vec!["pkg".to_owned(), "x".to_owned()]));
    assert!(ns.module_is_external(&vec!["other".to_owned()]));
}

#[test]
fn init_root_marks_preexisting_submodules_external() {
    let mut top = Module::new("pkg".to_owned(), Visibility::Public, None);
    let mut dep = Module::new("dep".to_owned(), Visibility::Public, None);
    let nested = Module::new("nested".to_owned(), Visibility::Public, None);
    dep.submodules.push(nested);
    top.submodules.push(dep);
    let mut root = Root { module: top };
    let ns = Namespace::init_root(&mut root);
    assert!(!root.module.is_external);
    assert!(root.module.submodules[0].is_external);
    assert!(root.module.submodules[0].submodules[0].is_external);
    assert!(!ns.root_module().is_external);
    assert!(ns.root_module().submodules[0].is_external);
}

#[test]
fn prepend_module_path_appends_prefixes() {
    let mut ns = namespace_with_root("pkg");
    ns.push_submodule(ident("x", 0, 1), Visibility::Private, Span { start: 0, end: 1 });
    let prefixes = vec!["m".to_owned(), "n".to_owned()];
    let full = ns.prepend_module_path(&prefixes);
    assert_eq!(full, vec!["x".to_owned(), "m".to_owned(), "n".to_owned()]);
}

#[test]
fn unknown_field_lists_the_available_fields() {
    let mut engine = TypeEngine::new();
    let decl = sample_struct(&mut engine, Span { start: 0, end: 5 }, (Span { start: 1, end: 2 }, Span { start: 3, end: 4 }));
    let res = TypedStructField::expect_field_from_fields(&decl.name, &decl.fields, &ident("c", 8, 9), decl.span);
    assert!(res.value.is_none());
    assert_eq!(res.errors.len(), 1);
    match &res.errors[0] {
        CompileError::FieldNotFound { field_name, available_fields, struct_name, span } => {
            assert_eq!(field_name.text, "c");
            assert_eq!(struct_name.text, "Point");
            assert_eq!(available_fields.clone(), vec!["a".to_owned(), "b".to_owned()]);
            assert_eq!(*span, decl.span);
        },
        _ => panic!("wrong error kind"),
    }
}

#[test]
fn known_field_is_found_without_diagnostics() {
    let mut engine = TypeEngine::new();
    let decl = sample_struct(&mut engine, Span { start: 0, end: 5 }, (Span { start: 1, end: 2 }, Span { start: 3, end: 4 }));
    let res = TypedStructField::expect_field_from_fields(&decl.name, &decl.fields, &ident("b", 8, 9), decl.span);
    assert!(res.errors.is_empty());
    assert_eq!(res.value.unwrap().name.text, "b");
}

#[test]
fn unknown_variant_reports_the_enum() {
    let mut engine = TypeEngine::new();
    let u64_id = engine.insert_type(u64_info());
    let decl = TypedEnumDeclaration {
        name: ident("Either", 0, 6),
        type_parameters: Vec::new(),
        variants: vec![TypedEnumVariant { name: ident("L", 1, 2), type_id: u64_id, tag: 0, span: Span { start: 1, end: 2 } }],
        span: Span { start: 0, end: 9 },
        visibility: Visibility::Private,
    };
    let res = decl.expect_variant_from_name(&ident("Missing", 20, 27));
    assert!(res.value.is_none());
    match &res.errors[0] {
        CompileError::UnknownEnumVariant { enum_name, variant_name, span } => {
            assert_eq!(enum_name.text, "Either");
            assert_eq!(variant_name.text, "Missing");
            assert_eq!(span.start, 0);
            assert_eq!(span.end, 9);
        },
        _ => panic!("wrong error kind"),
    }
}

#[test]
fn known_variant_is_returned() {
    let mut engine = TypeEngine::new();
    let u64_id = engine.insert_type(u64_info());
    let decl = TypedEnumDeclaration {
        name: ident("Either", 0, 6),
        type_parameters: Vec::new(),
        variants: vec![TypedEnumVariant { name: ident("L", 1, 2), type_id: u64_id, tag: 0, span: Span { start: 1, end: 2 } }],
        span: Span { start: 0, end: 9 },
        visibility: Visibility::Private,
    };
    let res = decl.expect_variant_from_name(&ident("L", 20, 21));
    assert!(res.errors.is_empty());
    let v = res.value.unwrap();
    assert_eq!(v.name.text, "L");
    assert_eq!(v.tag, 0);
}

#[test]
fn json_abi_describes_fields_recursively() {
    let mut engine = TypeEngine::new();
    let decl = sample_struct(&mut engine, Span { start: 0, end: 5 }, (Span { start: 1, end: 2 }, Span { start: 3, end: 4 }));
    let struct_id = decl.type_id(&mut engine);
    let field = TypedStructField { name: ident("p", 0, 1), type_id: struct_id, span: Span { start: 0, end: 1 } };
    let prop: Property = field.generate_json_abi(&engine);
    assert_eq!(prop.name, "p");
    assert_eq!(prop.type_field, "struct Point");
    let comps = prop.components.unwrap();
    assert_eq!(comps.len(), 2);
    assert_eq!(comps[0].name, "a");
    assert_eq!(comps[0].type_field, "u64");
    assert!(comps[0].components.is_none());
    assert_eq!(comps[1].name, "b");
    assert_eq!(comps[1].type_field, "bool");

    let variant = TypedEnumVariant { name: ident("V", 0, 1), type_id: struct_id, tag: 3, span: Span { start: 0, end: 1 } };
    let vprop = variant.generate_json_abi(&engine);
    assert_eq!(vprop.name, "V");
    assert_eq!(vprop.type_field, "struct Point");
}

#[test]
fn comments_resolve_against_defaults() {
    let defaults = Comments::default();
    assert!(!defaults.wrap_comments);
    assert_eq!(defaults.comment_width, 80);
    assert!(!defaults.normalize_comments);

    let opts = CommentsOptions { wrap_comments: Some(true), comment_width: None, normalize_comments: Some(true) };
    let c = Comments::from_opts(&opts);
    assert!(c.wrap_comments);
    assert_eq!(c.comment_width, 80);
    assert!(c.normalize_comments);

    let opts2 = CommentsOptions { wrap_comments: None, comment_width: Some(120), normalize_comments: None };
    let c2 = Comments::from_opts(&opts2);
    assert!(!c2.wrap_comments);
    assert_eq!(c2.comment_width, 120);
    assert!(!c2.normalize_comments);
}

#[test]
fn attribute_spans_join_their_parts() {
    let name = ident("storage", 2, 9);
    let bare = Attribute { name, args: None };
    assert_eq!(bare.span(), Span { start: 2, end: 9 });

    let with_args = Attribute {
        name: ident("storage", 2, 9),
        args: Some(Parens {
            inner: Punctuated { values: vec![ident("read", 10, 14)] },
            span: Span { start: 9, end: 15 },
        }),
    };
    assert_eq!(with_args.span(), Span { start: 2, end: 15 });

    let decl = AttributeDecl {
        hash_token: HashToken { span: Span { start: 0, end: 1 } },
        attribute: SquareBrackets { inner: with_args, span: Span { start: 1, end: 16 } },
    };
    assert_eq!(decl.span(), Span { start: 0, end: 16 });
}

#[test]
fn annotated_span_starts_at_the_first_attribute() {
    let attr = AttributeDecl {
        hash_token: HashToken { span: Span { start: 0, end: 1 } },
        attribute: SquareBrackets {
            inner: Attribute { name: ident("inline", 2, 8), args: None },
            span: Span { start: 1, end: 9 },
        },
    };
    let annotated = Annotated { attribute_list: vec![attr], value: ident("main", 10, 14) };
    assert_eq!(annotated.span(), Span { start: 0, end: 14 });

    let plain: Annotated<Ident> = Annotated { attribute_list: Vec::new(), value: ident("main", 10, 14) };
    assert_eq!(plain.span(), Span { start: 10, end: 14 });
}

#[test]
fn method_registry_copies_between_types() {
    let mut engine = TypeEngine::new();
    let mut items = Items::new();
    let a = engine.insert_type(TypeInfo::Boolean);
    let b = engine.insert_type(u64_info());
    items.register_methods(
        a,
        vec![MethodSignature { name: "is_set".to_owned(), purity: Purity::Reads, return_type: a }],
    );
    let empty: Vec<(TypeParameter, sway_core::type_engine::TypeId)> = Vec::new();
    items.copy_methods_to_type(&mut engine, a, b, &empty);
    let ms = items.methods_of_type(&engine, b);
    assert_eq!(ms.len(), 1);
    assert_eq!(ms[0].name, "is_set");
    assert_eq!(ms[0].purity, Purity::Reads);
    assert_eq!(ms[0].return_type, a);
}
