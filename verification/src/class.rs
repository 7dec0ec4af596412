//! The generator: from the configuration record and the accessors of the
//! members to the binding of the class.

use vstd::prelude::*;
use vstd::string::*;
use crate::args::{PyClassArgs, PyClassArgsView};
use crate::diagnostic::{Diagnostic, DiagnosticView, GENERIC_PARAMETERS, TUPLE_FIELD};
use crate::fields::{FieldDescriptors, FieldDescriptorsView, FnType};
use crate::item::{
    Fields, ItemStruct, ItemStructView, collect_descriptors, member_descriptors, strip_members,
};
use crate::syntax::{Expr, ExprView, Path, PathView, view_of_text};
use crate::text::join;

pub mod laws;

verus! {

pub const INVENTORY_PREFIX: &'static str = "Pyo3MethodsInventoryFor";

pub const GC_ASSERTION_PREFIX: &'static str = "__assertion_closure_";

/// How the methods that the declaration sites of a class contribute are
/// gathered. One discipline is chosen for a whole build.
#[derive(Clone, Copy, Debug, PartialEq, Eq, Structural)]
pub enum PyClassMethodsType {
    /// One aggregation point knows every method of the class.
    Specialization,
    /// Each site deposits its methods in a registry tied to the class.
    Inventory,
}

/// Where a dict or weak-reference slot of the instances comes from.
#[derive(Clone, Copy, Debug, PartialEq, Eq, Structural)]
pub enum Slot {
    /// The class has storage of its own for the slot.
    Own,
    /// The slot is that of the declared base.
    Inherited,
    /// The class opts out: a placeholder without size.
    Dummy,
}

/// The guard on access to instances from other threads.
#[derive(Clone, Copy, Debug, PartialEq, Eq, Structural)]
pub enum ThreadGuard {
    /// Instances are touched by the thread that created them only.
    Enforced,
    /// The guard of the declared base decides.
    Inherited,
    /// Nothing is enforced: instances are taken to be safe across threads.
    NoOp,
}

/// The native type at the root of the inheritance chain.
#[derive(Clone, Copy, Debug, PartialEq, Eq, Structural)]
pub enum BaseNativeType {
    /// The root object type.
    Any,
    /// That of the declared base.
    Inherited,
}

/// How instances are allocated.
#[derive(Debug, PartialEq, Eq)]
pub enum Allocator {
    Default,
    /// A pool of reusable objects, shared by the process, of the given
    /// capacity. The expression is evaluated by the generated code.
    FreeList(Expr),
}

/// The view of an [`Allocator`].
pub enum AllocatorView {
    Default,
    FreeList(ExprView),
}

/// The optional protocols whose entries a class contributes.
#[derive(Clone, Copy, Debug, PartialEq, Eq, Structural)]
pub enum Protocol {
    Object,
    Async,
    Context,
    Descriptor,
    Mapping,
    Number,
    Sequence,
    Buffer,
    Gc,
}

/// One source of entries in the enumeration of a class's methods and slots.
#[derive(Clone, Copy, Debug, PartialEq, Eq, Structural)]
pub enum MethodSource {
    /// The methods of the class itself.
    Methods,
    /// The accessors of its members.
    Descriptors,
    /// The entries of a protocol, none where the class does not implement it.
    Protocol(Protocol),
}

/// An accessor to generate: its kind, the member it reads or writes, and
/// the member's documentation.
#[derive(Debug, PartialEq, Eq)]
pub struct PropertyBinding {
    pub fn_type: FnType,
    pub name: String,
    pub doc: String,
}

/// The view of a [`PropertyBinding`].
pub struct PropertyBindingView {
    pub fn_type: FnType,
    pub name: Seq<char>,
    pub doc: Seq<char>,
}

/// Everything that is generated for one class.
#[derive(Debug, PartialEq, Eq)]
pub struct ClassBinding {
    /// The identifier of the declaration.
    pub cls: String,
    /// The name under which the class is exposed.
    pub name: String,
    /// The module of the class, where one is given.
    pub module: Option<String>,
    pub doc: String,
    pub dict: Slot,
    pub weakref: Slot,
    pub base: Path,
    pub base_nativetype: BaseNativeType,
    pub allocator: Allocator,
    pub is_gc: bool,
    pub is_basetype: bool,
    pub is_subclass: bool,
    pub thread_guard: ThreadGuard,
    /// Whether an owned instance converts into a generic object handle.
    pub into_py: bool,
    pub methods_type: PyClassMethodsType,
    /// The name of the registry that gathers the methods, where there is one.
    pub inventory: Option<String>,
    /// The name of the function that asserts, when the generated code is
    /// built, that the class can be traversed by the garbage collector.
    pub gc_assertion: Option<String>,
    pub descriptors: Vec<PropertyBinding>,
    /// The sources of methods and slots, in the order in which they are
    /// enumerated.
    pub enumeration: Vec<MethodSource>,
}

/// The view of a [`ClassBinding`].
pub struct ClassBindingView {
    pub cls: Seq<char>,
    pub name: Seq<char>,
    pub module: Option<Seq<char>>,
    pub doc: Seq<char>,
    pub dict: Slot,
    pub weakref: Slot,
    pub base: PathView,
    pub base_nativetype: BaseNativeType,
    pub allocator: AllocatorView,
    pub is_gc: bool,
    pub is_basetype: bool,
    pub is_subclass: bool,
    pub thread_guard: ThreadGuard,
    pub into_py: bool,
    pub methods_type: PyClassMethodsType,
    pub inventory: Option<Seq<char>>,
    pub gc_assertion: Option<Seq<char>>,
    pub descriptors: Seq<PropertyBindingView>,
    pub enumeration: Seq<MethodSource>,
}

impl View for Allocator {
    type V = AllocatorView;

    open spec fn view(&self) -> AllocatorView {
        match self {
            Allocator::Default => AllocatorView::Default,
            Allocator::FreeList(e) => AllocatorView::FreeList(e@),
        }
    }
}

impl View for PropertyBinding {
    type V = PropertyBindingView;

    open spec fn view(&self) -> PropertyBindingView {
        PropertyBindingView { fn_type: self.fn_type, name: self.name@, doc: self.doc@ }
    }
}

impl View for ClassBinding {
    type V = ClassBindingView;

    open spec fn view(&self) -> ClassBindingView {
        ClassBindingView {
            cls: self.cls@,
            name: self.name@,
            module: view_of_text(self.module),
            doc: self.doc@,
            dict: self.dict,
            weakref: self.weakref,
            base: self.base@,
            base_nativetype: self.base_nativetype,
            allocator: self.allocator@,
            is_gc: self.is_gc,
            is_basetype: self.is_basetype,
            is_subclass: self.is_subclass,
            thread_guard: self.thread_guard,
            into_py: self.into_py,
            methods_type: self.methods_type,
            inventory: view_of_text(self.inventory),
            gc_assertion: view_of_text(self.gc_assertion),
            descriptors: self.descriptors@.map_values(|b: PropertyBinding| b@),
            enumeration: self.enumeration@,
        }
    }
}

/// An identifier without the raw marker `r#` at its beginning, if it has one.
pub open spec fn spec_unraw(ident: Seq<char>) -> Seq<char> {
    if ident.len() >= 2 && ident[0] == 'r' && ident[1] == '#' {
        ident.skip(2)
    } else {
        ident
    }
}

/// The name of the registry that gathers the methods of `cls`.
pub open spec fn inventory_name(cls: Seq<char>) -> Seq<char> {
    INVENTORY_PREFIX@ + spec_unraw(cls)
}

/// The name of the function that asserts that `cls` can be traversed.
pub open spec fn gc_assertion_name(cls: Seq<char>) -> Seq<char> {
    GC_ASSERTION_PREFIX@ + cls
}

/// The name under which a class is exposed: the one that the arguments
/// give, else the identifier of the declaration.
pub open spec fn python_name(cls: Seq<char>, attr: PyClassArgsView) -> Seq<char> {
    match attr.name {
        Some(name) => name,
        None => cls,
    }
}

/// A slot is the class's own where its flag is set, else that of the
/// declared base where there is one, else the placeholder.
pub open spec fn slot(flag: bool, has_extends: bool) -> Slot {
    if flag {
        Slot::Own
    } else if has_extends {
        Slot::Inherited
    } else {
        Slot::Dummy
    }
}

pub open spec fn thread_guard(has_unsendable: bool, has_extends: bool) -> ThreadGuard {
    if has_unsendable {
        ThreadGuard::Enforced
    } else if has_extends {
        ThreadGuard::Inherited
    } else {
        ThreadGuard::NoOp
    }
}

pub open spec fn allocator(freelist: Option<ExprView>) -> AllocatorView {
    match freelist {
        Some(capacity) => AllocatorView::FreeList(capacity),
        None => AllocatorView::Default,
    }
}

/// The order in which the sources of methods and slots are enumerated.
pub open spec fn enumeration_order() -> Seq<MethodSource> {
    seq![
        MethodSource::Methods,
        MethodSource::Descriptors,
        MethodSource::Protocol(Protocol::Object),
        MethodSource::Protocol(Protocol::Async),
        MethodSource::Protocol(Protocol::Context),
        MethodSource::Protocol(Protocol::Descriptor),
        MethodSource::Protocol(Protocol::Mapping),
        MethodSource::Protocol(Protocol::Number),
        MethodSource::Protocol(Protocol::Sequence),
        MethodSource::Protocol(Protocol::Buffer),
        MethodSource::Protocol(Protocol::Gc),
    ]
}

/// The accessors of one member: one for each kind asked for, under the
/// member's name and with its documentation, empty where it has none. A
/// member without a name cannot have any.
pub open spec fn field_bindings(field: FieldDescriptorsView) -> Result<
    Seq<PropertyBindingView>,
    DiagnosticView,
> {
    if field.fns.len() == 0 {
        Ok(Seq::empty())
    } else {
        match field.ident {
            Some(name) => Ok(
                field.fns.map_values(
                    |fn_type: FnType|
                        PropertyBindingView {
                            fn_type,
                            name,
                            doc: match field.doc {
                                Some(doc) => doc,
                                None => Seq::empty(),
                            },
                        },
                ),
            ),
            None => Err(DiagnosticView { span: field.span, message: TUPLE_FIELD@ }),
        }
    }
}

/// The accessors of all members, in the order of the members; the first
/// member that cannot have its accessors makes the whole fail.
pub open spec fn property_bindings(fields: Seq<FieldDescriptorsView>) -> Result<
    Seq<PropertyBindingView>,
    DiagnosticView,
>
    decreases fields.len(),
{
    if fields.len() == 0 {
        Ok(Seq::empty())
    } else {
        match property_bindings(fields.drop_last()) {
            Err(e) => Err(e),
            Ok(before) => match field_bindings(fields.last()) {
                Err(e) => Err(e),
                Ok(bindings) => Ok(before + bindings),
            },
        }
    }
}

/// The binding of the class `cls`, from its arguments, its documentation,
/// the accessors of its members and the discipline for gathering methods.
pub open spec fn class_binding(
    cls: Seq<char>,
    attr: PyClassArgsView,
    doc: Seq<char>,
    descriptors: Seq<FieldDescriptorsView>,
    methods_type: PyClassMethodsType,
) -> Result<ClassBindingView, DiagnosticView> {
    match property_bindings(descriptors) {
        Err(e) => Err(e),
        Ok(bindings) => Ok(
            ClassBindingView {
                cls,
                name: python_name(cls, attr),
                module: match attr.module {
                    Some(m) => Some(m.value),
                    None => None,
                },
                doc,
                dict: slot(attr.has_dict, attr.has_extends),
                weakref: slot(attr.has_weaklist, attr.has_extends),
                base: attr.base,
                base_nativetype: if attr.has_extends {
                    BaseNativeType::Inherited
                } else {
                    BaseNativeType::Any
                },
                allocator: allocator(attr.freelist),
                is_gc: attr.is_gc,
                is_basetype: attr.is_basetype,
                is_subclass: attr.has_extends,
                thread_guard: thread_guard(attr.has_unsendable, attr.has_extends),
                into_py: !attr.has_extends,
                methods_type,
                inventory: match methods_type {
                    PyClassMethodsType::Specialization => None,
                    PyClassMethodsType::Inventory => Some(inventory_name(cls)),
                },
                gc_assertion: if attr.is_gc {
                    Some(gc_assertion_name(cls))
                } else {
                    None
                },
                descriptors: bindings,
                enumeration: enumeration_order(),
            },
        ),
    }
}

/// Strips the raw marker `r#`, if any, from the beginning of an identifier.
pub fn unraw(ident: &str) -> (r: &str)
    ensures
        r@ == spec_unraw(ident@),
{
    let len = ident.unicode_len();
    if len >= 2 && ident.get_char(0) == 'r' && ident.get_char(1) == '#' {
        let rest = ident.substring_char(2, len);
        assert(rest@ =~= ident@.skip(2));
        rest
    } else {
        ident
    }
}

/// The name of the registry in which the declaration sites of `cls` deposit
/// their methods. It is made from the identifier of the class, so that the
/// registries of two classes differ by name.
pub fn impl_methods_inventory(cls: &str) -> (r: String)
    ensures
        r@ == inventory_name(cls@),
{
    join(INVENTORY_PREFIX, unraw(cls))
}

pub fn get_class_python_name<'a>(cls: &'a str, attr: &'a PyClassArgs) -> (r: &'a str)
    ensures
        r@ == python_name(cls@, attr@),
{
    match &attr.name {
        Some(name) => name.as_str(),
        None => cls,
    }
}

/// The accessors of the members, in order.
pub fn impl_descriptors(descriptors: &Vec<FieldDescriptors>) -> (r: Result<
    Vec<PropertyBinding>,
    Diagnostic,
>)
    ensures
        match property_bindings(descriptors@.map_values(|d: FieldDescriptors| d@)) {
            Ok(bindings) => r matches Ok(v) && v@.map_values(|b: PropertyBinding| b@) == bindings,
            Err(e) => r matches Err(d) && d@ == e,
        },
{
    let ghost fields = descriptors@.map_values(|d: FieldDescriptors| d@);
    let mut out: Vec<PropertyBinding> = Vec::new();
    let mut i: usize = 0;
    assert(out@.map_values(|b: PropertyBinding| b@) =~= Seq::empty());
    while i < descriptors.len()
        invariant
            i <= descriptors.len(),
            fields == descriptors@.map_values(|d: FieldDescriptors| d@),
            property_bindings(fields.take(i as int)) == Ok::<
                Seq<PropertyBindingView>,
                DiagnosticView,
            >(out@.map_values(|b: PropertyBinding| b@)),
        decreases descriptors.len() - i,
    {
        let field = &descriptors[i];
        proof {
            assert(fields.take(i + 1).drop_last() =~= fields.take(i as int));
            assert(fields.take(i + 1).last() == field@);
        }
        if field.fns.len() > 0 {
            match &field.ident {
                None => {
                    let d = Diagnostic::new(field.span, TUPLE_FIELD);
                    proof {
                        lemma_bindings_fail(fields, i as int);
                    }
                    return Err(d);
                },
                Some(name) => {
                    let ghost before = out@.map_values(|b: PropertyBinding| b@);
                    let mut k: usize = 0;
                    while k < field.fns.len()
                        invariant
                            k <= field.fns.len(),
                            field.ident == Some(*name),
                            field_bindings(field@) is Ok,
                            out@.map_values(|b: PropertyBinding| b@) == before + field_bindings(
                                field@,
                            )->Ok_0.take(k as int),
                        decreases field.fns.len() - k,
                    {
                        let doc = match &field.doc {
                            Some(doc) => doc.clone(),
                            None => String::new(),
                        };
                        let binding = PropertyBinding {
                            fn_type: field.fns[k],
                            name: name.clone(),
                            doc,
                        };
                        proof {
                            let all = field_bindings(field@)->Ok_0;
                            assert(all.take(k + 1) =~= all.take(k as int).push(all[k as int]));
                            assert(binding@ == all[k as int]);
                            assert(out@.push(binding).map_values(|b: PropertyBinding| b@) =~= (
                            before + all.take(k as int)).push(binding@));
                        }
                        out.push(binding);
                        k += 1;
                    }
                    proof {
                        let all = field_bindings(field@)->Ok_0;
                        assert(all.take(k as int) =~= all);
                    }
                },
            }
        } else {
            assert(out@.map_values(|b: PropertyBinding| b@) + Seq::<PropertyBindingView>::empty()
                =~= out@.map_values(|b: PropertyBinding| b@));
        }
        i += 1;
    }
    assert(fields.take(i as int) =~= fields);
    Ok(out)
}

/// The sources of methods and slots in the order in which the generated
/// code enumerates them.
pub fn enumeration() -> (r: Vec<MethodSource>)
    ensures
        r@ == enumeration_order(),
{
    let mut order: Vec<MethodSource> = Vec::new();
    order.push(MethodSource::Methods);
    order.push(MethodSource::Descriptors);
    order.push(MethodSource::Protocol(Protocol::Object));
    order.push(MethodSource::Protocol(Protocol::Async));
    order.push(MethodSource::Protocol(Protocol::Context));
    order.push(MethodSource::Protocol(Protocol::Descriptor));
    order.push(MethodSource::Protocol(Protocol::Mapping));
    order.push(MethodSource::Protocol(Protocol::Number));
    order.push(MethodSource::Protocol(Protocol::Sequence));
    order.push(MethodSource::Protocol(Protocol::Buffer));
    order.push(MethodSource::Protocol(Protocol::Gc));
    assert(order@ =~= enumeration_order());
    order
}

/// Generates the binding of the class `cls`. Each part of it is decided by
/// the arguments alone, one independently of the other; generation fails
/// only where a member without a name is to have an accessor.
pub fn impl_class(
    cls: &str,
    attr: &PyClassArgs,
    doc: String,
    descriptors: Vec<FieldDescriptors>,
    methods_type: PyClassMethodsType,
) -> (r: Result<ClassBinding, Diagnostic>)
    ensures
        match class_binding(
            cls@,
            attr@,
            doc@,
            descriptors@.map_values(|d: FieldDescriptors| d@),
            methods_type,
        ) {
            Ok(binding) => r matches Ok(b) && b@ == binding,
            Err(e) => r matches Err(d) && d@ == e,
        },
{
    let name = get_class_python_name(cls, attr).to_owned();

    let allocator = match &attr.freelist {
        Some(capacity) => Allocator::FreeList(capacity.clone()),
        None => Allocator::Default,
    };

    let bindings = match impl_descriptors(&descriptors) {
        Ok(bindings) => bindings,
        Err(e) => {
            return Err(e);
        },
    };

    let weakref = if attr.has_weaklist {
        Slot::Own
    } else if attr.has_extends {
        Slot::Inherited
    } else {
        Slot::Dummy
    };
    let dict = if attr.has_dict {
        Slot::Own
    } else if attr.has_extends {
        Slot::Inherited
    } else {
        Slot::Dummy
    };
    let module = match &attr.module {
        Some(m) => Some(m.value.clone()),
        None => None,
    };

    let gc_assertion = if attr.is_gc {
        Some(join(GC_ASSERTION_PREFIX, cls))
    } else {
        None
    };

    let inventory = match methods_type {
        PyClassMethodsType::Specialization => None,
        PyClassMethodsType::Inventory => Some(impl_methods_inventory(cls)),
    };

    let base_nativetype = if attr.has_extends {
        BaseNativeType::Inherited
    } else {
        BaseNativeType::Any
    };

    let thread_guard = if attr.has_unsendable {
        ThreadGuard::Enforced
    } else if attr.has_extends {
        ThreadGuard::Inherited
    } else {
        ThreadGuard::NoOp
    };

    Ok(
        ClassBinding {
            cls: cls.to_owned(),
            name,
            module,
            doc,
            dict,
            weakref,
            base: attr.base.clone(),
            base_nativetype,
            allocator,
            is_gc: attr.is_gc,
            is_basetype: attr.is_basetype,
            is_subclass: attr.has_extends,
            thread_guard,
            into_py: !attr.has_extends,
            methods_type,
            inventory,
            gc_assertion,
            descriptors: bindings,
            enumeration: enumeration(),
        },
    )
}

/// What is generated for the declaration `class`: nothing where it has
/// generic parameters or a marker that is not accepted, else the binding of
/// the class from the accessors that its members ask for.
pub open spec fn built(
    class: ItemStructView,
    attr: PyClassArgsView,
    methods_type: PyClassMethodsType,
    doc: Seq<char>,
) -> Result<ClassBindingView, DiagnosticView> {
    if class.generics.params.len() > 0 {
        Err(DiagnosticView { span: class.generics.span, message: GENERIC_PARAMETERS@ })
    } else {
        match member_descriptors(class.fields.members()) {
            Err(e) => Err(e),
            Ok(descriptors) => class_binding(class.ident, attr, doc, descriptors, methods_type),
        }
    }
}

/// Generates the binding of the class that `class` declares and removes the
/// markers from its members. `doc` is the documentation of the class. Where
/// generation fails the declaration stays as it is.
pub fn build_py_class(
    class: &mut ItemStruct,
    attr: &PyClassArgs,
    methods_type: PyClassMethodsType,
    doc: String,
) -> (r: Result<ClassBinding, Diagnostic>)
    ensures
        match built(old(class)@, attr@, methods_type, doc@) {
            Ok(binding) => r matches Ok(b) && b@ == binding && final(class)@ == old(
                class,
            )@.stripped(),
            Err(e) => r matches Err(d) && d@ == e && final(class)@ == old(class)@,
        },
{
    if class.generics.params.len() > 0 {
        return Err(Diagnostic::new(class.generics.span, GENERIC_PARAMETERS));
    }
    let collected = match &class.fields {
        Fields::Named(fields) => collect_descriptors(fields),
        Fields::Unnamed(fields) => collect_descriptors(fields),
        Fields::Unit => {
            let none: Vec<FieldDescriptors> = Vec::new();
            assert(none@.map_values(|d: FieldDescriptors| d@) =~= Seq::empty());
            Ok(none)
        },
    };
    let descriptors = match collected {
        Ok(descriptors) => descriptors,
        Err(e) => {
            return Err(e);
        },
    };
    let binding = match impl_class(class.ident.as_str(), attr, doc, descriptors, methods_type) {
        Ok(binding) => binding,
        Err(e) => {
            return Err(e);
        },
    };
    match &mut class.fields {
        Fields::Named(fields) => strip_members(fields),
        Fields::Unnamed(fields) => strip_members(fields),
        Fields::Unit => {},
    }
    Ok(binding)
}

/// Once a prefix of the members fails, so does the whole, with the same
/// diagnostic.
proof fn lemma_bindings_fail(fields: Seq<FieldDescriptorsView>, i: int)
    requires
        0 <= i < fields.len(),
        property_bindings(fields.take(i + 1)) is Err,
    ensures
        property_bindings(fields) == property_bindings(fields.take(i + 1)),
    decreases fields.len() - i,
{
    if i + 1 == fields.len() {
        assert(fields.take(i + 1) =~= fields);
    } else {
        assert(fields.take(i + 2).drop_last() =~= fields.take(i + 1));
        lemma_bindings_fail(fields, i + 1);
    }
}

} // verus!
