use pyo3_macros_backend::args::PyClassArgs;
use pyo3_macros_backend::class::{
    build_py_class, enumeration, get_class_python_name, impl_class, impl_descriptors,
    impl_methods_inventory, unraw, Allocator, BaseNativeType, ClassBinding, MethodSource,
    PropertyBinding, Protocol, PyClassMethodsType, Slot, ThreadGuard,
};
use pyo3_macros_backend::diagnostic::Diagnostic;
use pyo3_macros_backend::fields::{
    Attribute, Field, FieldDescriptors, FnType, MetaItem, MetaList, NestedMeta, SelfType,
};
use pyo3_macros_backend::item::{Fields, Generics, ItemStruct};
use pyo3_macros_backend::syntax::{
    Argument, Expr, ExprAssign, ExprPath, LitStr, Path, PathSegment, Span, Verbatim,
};

fn sp(id: usize) -> Span {
    Span { id }
}

fn simple_path(idents: &[&str], id: usize) -> Path {
    Path {
        leading_colon: false,
        segments: idents
            .iter()
            .map(|ident| PathSegment { ident: ident.to_string(), arguments: None })
            .collect(),
        span: sp(id),
    }
}

fn on(name: &str) -> Argument {
    Argument::Expr(Expr::Path(ExprPath { path: simple_path(&[name], 10), span: sp(10) }))
}

fn set(key: &str, right: Expr) -> Argument {
    Argument::Assign(ExprAssign {
        left: Expr::Path(ExprPath { path: simple_path(&[key], 20), span: sp(20) }),
        right,
        span: sp(30),
    })
}

fn extends(idents: &[&str]) -> Argument {
    set("extends", Expr::Path(ExprPath { path: simple_path(idents, 40), span: sp(40) }))
}

fn capacity(tokens: &str) -> Expr {
    Expr::Verbatim(Verbatim { tokens: tokens.to_string(), span: sp(50) })
}

fn args(list: Vec<Argument>) -> PyClassArgs {
    PyClassArgs::parse(&list).unwrap()
}

fn generate(list: Vec<Argument>, methods_type: PyClassMethodsType) -> ClassBinding {
    impl_class("MyClass", &args(list), "docs".to_string(), vec![], methods_type).unwrap()
}

fn specialized(list: Vec<Argument>) -> ClassBinding {
    generate(list, PyClassMethodsType::Specialization)
}

const READ: FnType = FnType::Getter(SelfType::Receiver { mutable: false });
const WRITE: FnType = FnType::Setter(SelfType::Receiver { mutable: true });

fn asked(ident: Option<&str>, doc: Option<&str>, id: usize, fns: Vec<FnType>) -> FieldDescriptors {
    FieldDescriptors {
        ident: ident.map(|i| i.to_string()),
        doc: doc.map(|d| d.to_string()),
        span: sp(id),
        fns,
    }
}

fn accessor(fn_type: FnType, name: &str, doc: &str) -> PropertyBinding {
    PropertyBinding { fn_type, name: name.to_string(), doc: doc.to_string() }
}

fn marked(words: &[&str], id: usize) -> Attribute {
    Attribute {
        list: Some(MetaList {
            path: simple_path(&["pyo3"], id),
            nested: words
                .iter()
                .map(|w| NestedMeta::Meta(MetaItem { path: simple_path(&[w], id), span: sp(id) }))
                .collect(),
        }),
        span: sp(id),
    }
}

fn unmarked(id: usize) -> Attribute {
    Attribute { list: None, span: sp(id) }
}

fn field(ident: Option<&str>, attrs: Vec<Attribute>, id: usize) -> Field {
    Field { attrs, ident: ident.map(|i| i.to_string()), doc: None, span: sp(id) }
}

fn declaration(ident: &str, params: &[&str], fields: Fields) -> ItemStruct {
    ItemStruct {
        ident: ident.to_string(),
        generics: Generics { params: params.iter().map(|p| p.to_string()).collect(), span: sp(99) },
        fields,
    }
}

fn build(class: &mut ItemStruct, list: Vec<Argument>) -> Result<ClassBinding, Diagnostic> {
    build_py_class(class, &args(list), PyClassMethodsType::Specialization, "docs".to_string())
}

#[test]
fn a_class_without_arguments_gets_the_defaults() {
    let binding = specialized(vec![]);
    assert_eq!(
        binding,
        ClassBinding {
            cls: "MyClass".to_string(),
            name: "MyClass".to_string(),
            module: None,
            doc: "docs".to_string(),
            dict: Slot::Dummy,
            weakref: Slot::Dummy,
            base: simple_path(&["pyo3", "PyAny"], 0),
            base_nativetype: BaseNativeType::Any,
            allocator: Allocator::Default,
            is_gc: false,
            is_basetype: false,
            is_subclass: false,
            thread_guard: ThreadGuard::NoOp,
            into_py: true,
            methods_type: PyClassMethodsType::Specialization,
            inventory: None,
            gc_assertion: None,
            descriptors: vec![],
            enumeration: enumeration(),
        }
    );
}

#[test]
fn a_freelist_selects_the_pool_allocator() {
    let binding = specialized(vec![set("freelist", capacity("8 * 4"))]);
    assert_eq!(binding.allocator, Allocator::FreeList(capacity("8 * 4")));
}

#[test]
fn no_freelist_selects_the_default_allocator() {
    let binding = specialized(vec![on("gc"), extends(&["Base"])]);
    assert_eq!(binding.allocator, Allocator::Default);
}

#[test]
fn the_weakref_slot_is_the_placeholder_without_flag_and_base() {
    assert_eq!(specialized(vec![]).weakref, Slot::Dummy);
    assert_eq!(specialized(vec![on("dict")]).weakref, Slot::Dummy);
}

#[test]
fn the_weakref_slot_is_inherited_from_a_base() {
    assert_eq!(specialized(vec![extends(&["base", "Type"])]).weakref, Slot::Inherited);
    assert_eq!(specialized(vec![extends(&["Base"]), on("dict")]).weakref, Slot::Inherited);
}

#[test]
fn the_weakref_slot_is_the_own_one_with_the_flag() {
    assert_eq!(specialized(vec![on("weakref")]).weakref, Slot::Own);
    assert_eq!(specialized(vec![on("weakref"), extends(&["Base"])]).weakref, Slot::Own);
}

#[test]
fn the_dict_slot_resolves_on_its_own() {
    assert_eq!(specialized(vec![on("weakref")]).dict, Slot::Dummy);
    assert_eq!(specialized(vec![on("weakref"), extends(&["Base"])]).dict, Slot::Inherited);
    assert_eq!(specialized(vec![on("dict")]).dict, Slot::Own);
    assert_eq!(specialized(vec![on("dict"), extends(&["Base"])]).dict, Slot::Own);
}

#[test]
fn the_thread_guard_follows_unsendable_then_the_base() {
    assert_eq!(specialized(vec![]).thread_guard, ThreadGuard::NoOp);
    assert_eq!(specialized(vec![extends(&["Base"])]).thread_guard, ThreadGuard::Inherited);
    assert_eq!(specialized(vec![on("unsendable")]).thread_guard, ThreadGuard::Enforced);
    assert_eq!(
        specialized(vec![extends(&["Base"]), on("unsendable")]).thread_guard,
        ThreadGuard::Enforced
    );
}

#[test]
fn a_subclass_links_to_its_base() {
    let binding = specialized(vec![extends(&["my_mod", "BaseClass"])]);
    assert_eq!(binding.base, simple_path(&["my_mod", "BaseClass"], 40));
    assert_eq!(binding.base_nativetype, BaseNativeType::Inherited);
    assert!(binding.is_subclass);
    assert!(!binding.into_py);
}

#[test]
fn a_root_class_converts_into_an_object() {
    let binding = specialized(vec![on("subclass")]);
    assert!(binding.into_py);
    assert!(!binding.is_subclass);
    assert_eq!(binding.base_nativetype, BaseNativeType::Any);
}

#[test]
fn the_markers_for_the_runtime_are_handed_on() {
    let binding = specialized(vec![on("gc")]);
    assert_eq!((binding.is_gc, binding.is_basetype, binding.is_subclass), (true, false, false));
    let binding = specialized(vec![on("subclass")]);
    assert_eq!((binding.is_gc, binding.is_basetype, binding.is_subclass), (false, true, false));
    let binding = specialized(vec![on("gc"), on("subclass"), extends(&["B"])]);
    assert_eq!((binding.is_gc, binding.is_basetype, binding.is_subclass), (true, true, true));
}

#[test]
fn gc_adds_the_assertion() {
    assert_eq!(specialized(vec![]).gc_assertion, None);
    assert_eq!(
        specialized(vec![on("gc")]).gc_assertion,
        Some("__assertion_closure_MyClass".to_string())
    );
}

#[test]
fn the_name_defaults_to_the_identifier() {
    assert_eq!(specialized(vec![]).name, "MyClass");
    let named = set("name", Expr::Str(LitStr { value: "Foo".to_string(), span: sp(60) }));
    let binding = specialized(vec![named]);
    assert_eq!(binding.name, "Foo");
    assert_eq!(binding.cls, "MyClass");
}

#[test]
fn the_python_name_is_the_given_one_or_the_identifier() {
    let plain = PyClassArgs::default();
    assert_eq!(get_class_python_name("MyClass", &plain), "MyClass");
    let named = PyClassArgs { name: Some("Other".to_string()), ..PyClassArgs::default() };
    assert_eq!(get_class_python_name("MyClass", &named), "Other");
}

#[test]
fn the_module_is_handed_on() {
    assert_eq!(specialized(vec![]).module, None);
    let module = set("module", Expr::Str(LitStr { value: "my_mod".to_string(), span: sp(60) }));
    assert_eq!(specialized(vec![module]).module, Some("my_mod".to_string()));
}

#[test]
fn the_documentation_is_handed_on() {
    let binding = impl_class(
        "A",
        &PyClassArgs::default(),
        "A class.\n\nWith text.".to_string(),
        vec![],
        PyClassMethodsType::Specialization,
    )
    .unwrap();
    assert_eq!(binding.doc, "A class.\n\nWith text.");
}

#[test]
fn an_inventory_is_named_after_the_class() {
    let binding = generate(vec![], PyClassMethodsType::Inventory);
    assert_eq!(binding.methods_type, PyClassMethodsType::Inventory);
    assert_eq!(binding.inventory, Some("Pyo3MethodsInventoryForMyClass".to_string()));
    assert_eq!(specialized(vec![]).inventory, None);
    assert_eq!(impl_methods_inventory("Point"), "Pyo3MethodsInventoryForPoint");
    assert_eq!(impl_methods_inventory("r#type"), "Pyo3MethodsInventoryFortype");
    assert_ne!(impl_methods_inventory("A"), impl_methods_inventory("B"));
}

#[test]
fn the_raw_marker_is_stripped() {
    assert_eq!(unraw("x"), "x");
    assert_eq!(unraw("move"), "move");
    assert_eq!(unraw("r#move"), "move");
    assert_eq!(unraw("r#"), "");
    assert_eq!(unraw("r"), "r");
    assert_eq!(unraw(""), "");
    assert_eq!(unraw("ar#b"), "ar#b");
    assert_eq!(unraw("r#r#x"), "r#x");
    assert_eq!(unraw("r#日本"), "日本");
    assert_eq!(unraw("日r#"), "日r#");
}

#[test]
fn the_enumeration_has_a_fixed_order() {
    let expected = vec![
        MethodSource::Methods,
        MethodSource::Descriptors,
        MethodSource::Protocol(Protocol::Object),
        MethodSource::Protocol(Protocol::Async),
        MethodSource::Protocol(Protocol::Context),
        MethodSource::Protocol(Protocol::Descriptor),
        MethodSource::Protocol(Protocol::Mapping),
        MethodSource::Protocol(Protocol::Number),
        MethodSource::Protocol(Protocol::Sequence),
        MethodSource::Protocol(Protocol::Buffer),
        MethodSource::Protocol(Protocol::Gc),
    ];
    assert_eq!(enumeration(), expected);
    assert_eq!(specialized(vec![on("gc"), on("dict")]).enumeration, expected);
    assert_eq!(generate(vec![], PyClassMethodsType::Inventory).enumeration, expected);
}

#[test]
fn accessors_are_generated_member_by_member() {
    let descriptors = vec![
        asked(Some("x"), Some("the x"), 1, vec![READ, WRITE]),
        asked(Some("y"), None, 2, vec![WRITE]),
    ];
    assert_eq!(
        impl_descriptors(&descriptors).unwrap(),
        vec![
            accessor(READ, "x", "the x"),
            accessor(WRITE, "x", "the x"),
            accessor(WRITE, "y", ""),
        ]
    );
    assert_eq!(impl_descriptors(&vec![]).unwrap(), vec![]);
}

#[test]
fn a_positional_member_cannot_have_accessors() {
    let descriptors = vec![
        asked(Some("x"), None, 1, vec![READ]),
        asked(None, None, 2, vec![READ]),
        asked(None, None, 3, vec![WRITE]),
    ];
    let err = impl_descriptors(&descriptors).unwrap_err();
    assert_eq!(err.message, "get/set is not supported on tuple struct fields");
    assert_eq!(err.span, sp(2));
    let err = impl_class(
        "T",
        &PyClassArgs::default(),
        String::new(),
        descriptors,
        PyClassMethodsType::Specialization,
    )
    .unwrap_err();
    assert_eq!(err.message, "get/set is not supported on tuple struct fields");
    assert_eq!(err.span, sp(2));
}

#[test]
fn a_positional_member_that_asks_for_nothing_is_fine() {
    let descriptors = vec![asked(None, None, 2, vec![]), asked(Some("x"), None, 1, vec![READ])];
    assert_eq!(impl_descriptors(&descriptors).unwrap(), vec![accessor(READ, "x", "")]);
}

#[test]
fn a_declaration_is_built_and_its_markers_removed() {
    let mut class = declaration(
        "Point",
        &[],
        Fields::Named(vec![
            Field {
                doc: Some("across".to_string()),
                ..field(Some("x"), vec![unmarked(1), marked(&["get", "set"], 2)], 3)
            },
            field(Some("y"), vec![marked(&["get"], 4)], 5),
            field(Some("hidden"), vec![unmarked(6)], 7),
        ]),
    );
    let binding = build(&mut class, vec![on("dict")]).unwrap();
    assert_eq!(binding.cls, "Point");
    assert_eq!(binding.name, "Point");
    assert_eq!(binding.doc, "docs");
    assert_eq!(binding.dict, Slot::Own);
    assert_eq!(
        binding.descriptors,
        vec![
            accessor(READ, "x", "across"),
            accessor(WRITE, "x", "across"),
            accessor(READ, "y", ""),
        ]
    );
    assert_eq!(
        class,
        declaration(
            "Point",
            &[],
            Fields::Named(vec![
                Field { doc: Some("across".to_string()), ..field(Some("x"), vec![unmarked(1)], 3) },
                field(Some("y"), vec![], 5),
                field(Some("hidden"), vec![unmarked(6)], 7),
            ]),
        )
    );
}

#[test]
fn a_unit_declaration_has_no_accessors() {
    let mut class = declaration("Unit", &[], Fields::Unit);
    let binding = build(&mut class, vec![]).unwrap();
    assert_eq!(binding.descriptors, vec![]);
    assert_eq!(class, declaration("Unit", &[], Fields::Unit));
}

#[test]
fn generic_parameters_are_refused() {
    let fields = || Fields::Named(vec![field(Some("x"), vec![marked(&["get"], 2)], 3)]);
    let mut class = declaration("Generic", &["T"], fields());
    let err = build(&mut class, vec![]).unwrap_err();
    assert_eq!(err.message, "#[pyclass] cannot have generic parameters");
    assert_eq!(err.span, sp(99));
    assert_eq!(class, declaration("Generic", &["T"], fields()));
}

#[test]
fn generic_parameters_are_refused_before_the_members_are_read() {
    let fields = || Fields::Unnamed(vec![field(None, vec![marked(&["bogus"], 2)], 3)]);
    let mut class = declaration("Generic", &["'a", "T"], fields());
    let err = build(&mut class, vec![]).unwrap_err();
    assert_eq!(err.message, "#[pyclass] cannot have generic parameters");
}

#[test]
fn a_positional_member_marked_get_fails_the_build() {
    let fields = || {
        Fields::Unnamed(vec![
            field(None, vec![unmarked(1)], 2),
            field(None, vec![marked(&["get"], 3)], 4),
        ])
    };
    let mut class = declaration("Pair", &[], fields());
    let err = build(&mut class, vec![]).unwrap_err();
    assert_eq!(err.message, "get/set is not supported on tuple struct fields");
    assert_eq!(err.span, sp(4));
    assert_eq!(class, declaration("Pair", &[], fields()));
}

#[test]
fn a_positional_member_without_markers_builds() {
    let mut class = declaration(
        "Pair",
        &[],
        Fields::Unnamed(vec![field(None, vec![unmarked(1)], 2), field(None, vec![], 4)]),
    );
    let binding = build(&mut class, vec![]).unwrap();
    assert_eq!(binding.descriptors, vec![]);
}

#[test]
fn a_marker_that_is_refused_fails_the_build_and_keeps_the_declaration() {
    let fields = || {
        Fields::Named(vec![
            field(Some("x"), vec![marked(&["get"], 1)], 2),
            field(Some("y"), vec![marked(&["name"], 3)], 4),
        ])
    };
    let mut class = declaration("Point", &[], fields());
    let err = build(&mut class, vec![]).unwrap_err();
    assert_eq!(err.message, "only get and set are supported");
    assert_eq!(err.span, sp(3));
    assert_eq!(class, declaration("Point", &[], fields()));
}

#[test]
fn a_marker_that_is_refused_comes_before_a_positional_member() {
    let mut class = declaration(
        "Pair",
        &[],
        Fields::Unnamed(vec![
            field(None, vec![marked(&["get"], 1)], 2),
            field(None, vec![marked(&["name"], 3)], 4),
        ]),
    );
    let err = build(&mut class, vec![]).unwrap_err();
    assert_eq!(err.message, "only get and set are supported");
}
