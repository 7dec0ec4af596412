//! What holds of the binding of a class, whatever the class.

use vstd::prelude::*;
use vstd::string::*;
use crate::args::PyClassArgsView;
use crate::args::laws::{has_flag, has_key, record_reflects_list};
use crate::args::parsed;
use crate::class::{
    INVENTORY_PREFIX, PyClassMethodsType, built, class_binding, enumeration_order, field_bindings,
    inventory_name, property_bindings, slot, spec_unraw, thread_guard,
};
use crate::diagnostic::TUPLE_FIELD;
use crate::fields::{FieldDescriptorsView, FieldView, descriptors_of};
use crate::item::{ItemStructView, member_descriptors};
use crate::syntax::ArgumentView;

verus! {

/// Every part of the binding but the accessors is decided by the arguments
/// alone, each part by its own rule, and none of the rules can fail: the
/// slots, the guard, the allocator, the native base and the conversion
/// follow the flags and keys, and the three markers for the runtime are
/// handed on as they are.
pub proof fn binding_follows_arguments(
    cls: Seq<char>,
    attr: PyClassArgsView,
    doc: Seq<char>,
    descriptors: Seq<FieldDescriptorsView>,
    methods_type: PyClassMethodsType,
)
    requires
        class_binding(cls, attr, doc, descriptors, methods_type) is Ok,
    ensures
        ({
            let b = class_binding(cls, attr, doc, descriptors, methods_type)->Ok_0;
            &&& b.weakref == slot(attr.has_weaklist, attr.has_extends)
            &&& b.dict == slot(attr.has_dict, attr.has_extends)
            &&& b.thread_guard == thread_guard(attr.has_unsendable, attr.has_extends)
            &&& b.allocator is FreeList <==> attr.freelist is Some
            &&& b.allocator is Default <==> attr.freelist is None
            &&& b.is_gc == attr.is_gc
            &&& b.is_basetype == attr.is_basetype
            &&& b.is_subclass == attr.has_extends
            &&& b.gc_assertion is Some <==> attr.is_gc
            &&& b.into_py <==> !attr.has_extends
            &&& b.base == attr.base
            &&& b.inventory is Some <==> methods_type == PyClassMethodsType::Inventory
            &&& b.enumeration == enumeration_order()
        }),
{
}

/// The binding of a class reflects the argument list of its attribute: the
/// weak-reference slot and the dict slot are the class's own where the list
/// holds the flag, else those of the base where the list holds `extends`,
/// else the placeholder, and the pool allocator is chosen where the list
/// holds `freelist`, the default allocator where it does not.
pub proof fn binding_reflects_list(
    list: Seq<ArgumentView>,
    cls: Seq<char>,
    doc: Seq<char>,
    descriptors: Seq<FieldDescriptorsView>,
    methods_type: PyClassMethodsType,
)
    requires
        parsed(list) is Ok,
        class_binding(cls, parsed(list)->Ok_0, doc, descriptors, methods_type) is Ok,
    ensures
        ({
            let b = class_binding(cls, parsed(list)->Ok_0, doc, descriptors, methods_type)->Ok_0;
            &&& b.weakref == slot(has_flag(list, "weakref"@), has_key(list, "extends"@))
            &&& b.dict == slot(has_flag(list, "dict"@), has_key(list, "extends"@))
            &&& b.thread_guard == thread_guard(
                has_flag(list, "unsendable"@),
                has_key(list, "extends"@),
            )
            &&& b.allocator is FreeList <==> has_key(list, "freelist"@)
            &&& b.allocator is Default <==> !has_key(list, "freelist"@)
            &&& b.is_gc == has_flag(list, "gc"@)
            &&& b.is_basetype == has_flag(list, "subclass"@)
            &&& b.is_subclass == has_key(list, "extends"@)
        }),
{
    record_reflects_list(list);
}

/// The registries of two classes have the same name only where the
/// identifiers of the classes, without the raw marker, are the same.
pub proof fn inventory_names_differ(a: Seq<char>, b: Seq<char>)
    ensures
        inventory_name(a) == inventory_name(b) <==> spec_unraw(a) == spec_unraw(b),
{
    let prefix = INVENTORY_PREFIX@;
    if inventory_name(a) == inventory_name(b) {
        assert(spec_unraw(a) =~= inventory_name(a).skip(prefix.len() as int));
        assert(spec_unraw(b) =~= inventory_name(b).skip(prefix.len() as int));
    }
}

/// The accessors fail only for a member without a name, and they fail
/// where some member without a name asks for an accessor.
pub proof fn bindings_fail_for_unnamed(fields: Seq<FieldDescriptorsView>)
    ensures
        property_bindings(fields) matches Err(e) ==> e.message == TUPLE_FIELD@,
        property_bindings(fields) is Err <==> exists|i: int|
            0 <= i < fields.len() && (#[trigger] fields[i]).ident is None && fields[i].fns.len()
                > 0,
    decreases fields.len(),
{
    if fields.len() > 0 {
        let front = fields.drop_last();
        bindings_fail_for_unnamed(front);
        if property_bindings(front) is Err {
            let i = choose|i: int|
                0 <= i < front.len() && (#[trigger] front[i]).ident is None && front[i].fns.len()
                    > 0;
            assert(fields[i].ident is None && fields[i].fns.len() > 0);
        } else if field_bindings(fields.last()) is Err {
            assert(fields[fields.len() - 1].ident is None);
        } else {
            assert forall|i: int| 0 <= i < fields.len() implies !((#[trigger] fields[i]).ident
                is None && fields[i].fns.len() > 0) by {
                if i < front.len() {
                    assert(front[i] == fields[i]);
                }
            }
        }
    }
}

/// Every member that asks for an accessor has its entry among the
/// accessors read from the members.
proof fn lemma_member_has_entry(members: Seq<FieldView>, i: int)
    requires
        member_descriptors(members) is Ok,
        0 <= i < members.len(),
        descriptors_of(members[i].attrs) matches Ok(fns) && fns.len() > 0,
    ensures
        exists|k: int|
            0 <= k < member_descriptors(members)->Ok_0.len() && (#[trigger] member_descriptors(
                members,
            )->Ok_0[k]).ident == members[i].ident && member_descriptors(members)->Ok_0[k].fns.len()
                > 0,
    decreases members.len(),
{
    let all = member_descriptors(members)->Ok_0;
    let front = members.drop_last();
    let before = member_descriptors(front)->Ok_0;
    if i + 1 == members.len() {
        assert(all[all.len() - 1].ident == members[i].ident);
    } else {
        assert(front[i] == members[i]);
        lemma_member_has_entry(front, i);
        let k = choose|k: int|
            0 <= k < before.len() && (#[trigger] before[k]).ident == members[i].ident
                && before[k].fns.len() > 0;
        assert(all[k] == before[k]);
    }
}

/// A declaration without generic parameters, all of whose markers are
/// accepted, is refused where a member without a name asks for an
/// accessor: a positional member cannot be exposed.
pub proof fn unnamed_member_is_refused(
    class: ItemStructView,
    attr: PyClassArgsView,
    methods_type: PyClassMethodsType,
    doc: Seq<char>,
    i: int,
)
    requires
        class.generics.params.len() == 0,
        member_descriptors(class.fields.members()) is Ok,
        0 <= i < class.fields.members().len(),
        class.fields.members()[i].ident is None,
        descriptors_of(class.fields.members()[i].attrs) matches Ok(fns) && fns.len() > 0,
    ensures
        built(class, attr, methods_type, doc) matches Err(e) && e.message == TUPLE_FIELD@,
{
    let members = class.fields.members();
    let entries = member_descriptors(members)->Ok_0;
    lemma_member_has_entry(members, i);
    let k = choose|k: int|
        0 <= k < entries.len() && (#[trigger] entries[k]).ident == members[i].ident
            && entries[k].fns.len() > 0;
    assert(entries[k].ident is None && entries[k].fns.len() > 0);
    bindings_fail_for_unnamed(entries);
}

} // verus!
