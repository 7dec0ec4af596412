//! What holds of the accessors that markers ask for, whatever the member.

use vstd::prelude::*;
use vstd::string::*;
use crate::diagnostic::DiagnosticView;
use crate::fields::{
    AttributeView, FnType, MetaItemView, NestedMetaView, descriptors_of, getter, list_fn_types,
    setter, surviving,
};

verus! {

/// Attributes without a marker ask for no accessor.
pub proof fn no_marker_no_accessor(attrs: Seq<AttributeView>)
    requires
        forall|k: int| 0 <= k < attrs.len() ==> !(#[trigger] attrs[k]).is_marker(),
    ensures
        descriptors_of(attrs) == Ok::<Seq<FnType>, DiagnosticView>(Seq::empty()),
        surviving(attrs) == attrs,
    decreases attrs.len(),
{
    reveal(Seq::filter);
    if attrs.len() > 0 {
        let front = attrs.drop_last();
        assert forall|k: int| 0 <= k < front.len() implies !(#[trigger] front[k]).is_marker() by {
            assert(front[k] == attrs[k]);
        }
        no_marker_no_accessor(front);
        assert(!attrs[attrs.len() - 1].is_marker());
        assert(Seq::<FnType>::empty() + Seq::<FnType>::empty() =~= Seq::<FnType>::empty());
        assert(front.push(attrs.last()) =~= attrs);
    } else {
        assert(attrs.filter(|a: AttributeView| !a.is_marker()) =~= attrs);
    }
}

/// Where one attribute of a member is a marker and no other is, the
/// accessors of the member are those that the list of the marker asks
/// for, wherever the marker stands among the attributes.
pub proof fn single_marker_decides(attrs: Seq<AttributeView>, i: int)
    requires
        0 <= i < attrs.len(),
        attrs[i].is_marker(),
        forall|k: int| 0 <= k < attrs.len() && k != i ==> !(#[trigger] attrs[k]).is_marker(),
    ensures
        descriptors_of(attrs) == attrs[i].fn_types(),
    decreases attrs.len(),
{
    let front = attrs.drop_last();
    if i + 1 == attrs.len() {
        assert forall|k: int| 0 <= k < front.len() implies !(#[trigger] front[k]).is_marker() by {
            assert(front[k] == attrs[k]);
        }
        no_marker_no_accessor(front);
        match attrs[i].fn_types() {
            Ok(fn_types) => {
                assert(Seq::<FnType>::empty() + fn_types =~= fn_types);
            },
            Err(_) => {},
        }
    } else {
        assert(front[i] == attrs[i]);
        assert forall|k: int| 0 <= k < front.len() && k != i implies !(
        #[trigger] front[k]).is_marker() by {
            assert(front[k] == attrs[k]);
        }
        single_marker_decides(front, i);
        assert(!attrs[attrs.len() - 1].is_marker());
        match attrs[i].fn_types() {
            Ok(fn_types) => {
                assert(fn_types + Seq::<FnType>::empty() =~= fn_types);
            },
            Err(_) => {},
        }
    }
}

/// `get` and `set` are different words.
pub proof fn get_is_not_set()
    ensures
        "get"@ != "set"@,
{
    reveal_strlit("get");
    reveal_strlit("set");
    assert("get"@[0] == 'g');
    assert("set"@[0] == 's');
}

/// A marker that lists only `get` asks for one accessor, the one that
/// reads, and for none that writes.
pub proof fn get_asks_for_getter(get: MetaItemView)
    requires
        get.path.is_ident("get"@),
    ensures
        list_fn_types(seq![NestedMetaView::Meta(get)]) == Ok::<Seq<FnType>, DiagnosticView>(
            seq![getter()],
        ),
{
    let list = seq![NestedMetaView::Meta(get)];
    assert(list.drop_last() =~= Seq::empty());
    assert(Seq::<FnType>::empty().push(getter()) =~= seq![getter()]);
    reveal_with_fuel(list_fn_types, 2);
}

/// A marker that lists `get` and `set` asks for both accessors, in that
/// order.
pub proof fn get_and_set_ask_for_both(get: MetaItemView, set: MetaItemView)
    requires
        get.path.is_ident("get"@),
        set.path.is_ident("set"@),
    ensures
        list_fn_types(seq![NestedMetaView::Meta(get), NestedMetaView::Meta(set)]) == Ok::<
            Seq<FnType>,
            DiagnosticView,
        >(seq![getter(), setter()]),
{
    get_is_not_set();
    get_asks_for_getter(get);
    let list = seq![NestedMetaView::Meta(get), NestedMetaView::Meta(set)];
    assert(list.drop_last() =~= seq![NestedMetaView::Meta(get)]);
    assert(seq![getter()].push(setter()) =~= seq![getter(), setter()]);
}

} // verus!
