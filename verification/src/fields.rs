//! The members of a class declaration and the accessors that their marker
//! attributes ask for.

use vstd::prelude::*;
use vstd::string::*;
use crate::diagnostic::{Diagnostic, DiagnosticView, ONLY_GET_AND_SET};
use crate::syntax::{Path, PathView, Span, view_of_text};

pub mod laws;

verus! {

/// The path of the attribute that marks a member for accessors.
pub const MARKER: &'static str = "pyo3";

/// How a generated accessor receives the instance.
#[derive(Clone, Copy, Debug, PartialEq, Eq, Structural)]
pub enum SelfType {
    Receiver { mutable: bool },
}

/// The kind of an accessor.
#[derive(Clone, Copy, Debug, PartialEq, Eq, Structural)]
pub enum FnType {
    Getter(SelfType),
    Setter(SelfType),
}

/// A meta item nested in an attribute's list, reduced to its path.
#[derive(Debug, PartialEq, Eq)]
pub struct MetaItem {
    pub path: Path,
    pub span: Span,
}

/// The view of a [`MetaItem`].
pub struct MetaItemView {
    pub path: PathView,
    pub span: Span,
}

/// One element of an attribute's list: a meta item or a literal.
#[derive(Debug, PartialEq, Eq)]
pub enum NestedMeta {
    Meta(MetaItem),
    Lit(Span),
}

/// The view of a [`NestedMeta`].
pub enum NestedMetaView {
    Meta(MetaItemView),
    Lit(Span),
}

/// An attribute of the form `path(nested, ...)`.
#[derive(Debug, PartialEq, Eq)]
pub struct MetaList {
    pub path: Path,
    pub nested: Vec<NestedMeta>,
}

/// The view of a [`MetaList`].
pub struct MetaListView {
    pub path: PathView,
    pub nested: Seq<NestedMetaView>,
}

/// An attribute on a member. `list` is the attribute read as a meta list,
/// and `None` where it has any other form.
#[derive(Debug, PartialEq, Eq)]
pub struct Attribute {
    pub list: Option<MetaList>,
    pub span: Span,
}

/// The view of an [`Attribute`].
pub struct AttributeView {
    pub list: Option<MetaListView>,
    pub span: Span,
}

/// A member of the declaration. A positional member has no `ident`. `doc`
/// is the member's documentation text where one could be extracted.
#[derive(Debug, PartialEq, Eq)]
pub struct Field {
    pub attrs: Vec<Attribute>,
    pub ident: Option<String>,
    pub doc: Option<String>,
    pub span: Span,
}

/// The view of a [`Field`].
pub struct FieldView {
    pub attrs: Seq<AttributeView>,
    pub ident: Option<Seq<char>>,
    pub doc: Option<Seq<char>>,
    pub span: Span,
}

/// The accessors asked for on one member, with what the generator reads of
/// the member.
#[derive(Debug, PartialEq, Eq)]
pub struct FieldDescriptors {
    pub ident: Option<String>,
    pub doc: Option<String>,
    pub span: Span,
    pub fns: Vec<FnType>,
}

/// The view of a [`FieldDescriptors`].
pub struct FieldDescriptorsView {
    pub ident: Option<Seq<char>>,
    pub doc: Option<Seq<char>>,
    pub span: Span,
    pub fns: Seq<FnType>,
}

impl View for MetaItem {
    type V = MetaItemView;

    open spec fn view(&self) -> MetaItemView {
        MetaItemView { path: self.path@, span: self.span }
    }
}

impl View for NestedMeta {
    type V = NestedMetaView;

    open spec fn view(&self) -> NestedMetaView {
        match self {
            NestedMeta::Meta(m) => NestedMetaView::Meta(m@),
            NestedMeta::Lit(s) => NestedMetaView::Lit(*s),
        }
    }
}

impl View for MetaList {
    type V = MetaListView;

    open spec fn view(&self) -> MetaListView {
        MetaListView { path: self.path@, nested: self.nested@.map_values(|n: NestedMeta| n@) }
    }
}

impl View for Attribute {
    type V = AttributeView;

    open spec fn view(&self) -> AttributeView {
        AttributeView {
            list: match self.list {
                Some(l) => Some(l@),
                None => None,
            },
            span: self.span,
        }
    }
}

impl View for Field {
    type V = FieldView;

    open spec fn view(&self) -> FieldView {
        FieldView {
            attrs: self.attrs@.map_values(|a: Attribute| a@),
            ident: view_of_text(self.ident),
            doc: view_of_text(self.doc),
            span: self.span,
        }
    }
}

impl View for FieldDescriptors {
    type V = FieldDescriptorsView;

    open spec fn view(&self) -> FieldDescriptorsView {
        FieldDescriptorsView {
            ident: view_of_text(self.ident),
            doc: view_of_text(self.doc),
            span: self.span,
            fns: self.fns@,
        }
    }
}

/// The accessor that reads a member.
pub open spec fn getter() -> FnType {
    FnType::Getter(SelfType::Receiver { mutable: false })
}

/// The accessor that writes a member.
pub open spec fn setter() -> FnType {
    FnType::Setter(SelfType::Receiver { mutable: true })
}

/// The accessor that one element of a marker's list asks for: `get` the
/// one that reads, `set` the one that writes. A literal asks for none, and
/// no other meta item is accepted.
pub open spec fn item_fn_type(item: NestedMetaView) -> Result<Option<FnType>, DiagnosticView> {
    match item {
        NestedMetaView::Lit(_) => Ok(None),
        NestedMetaView::Meta(meta) => if meta.path.is_ident("get"@) {
            Ok(Some(getter()))
        } else if meta.path.is_ident("set"@) {
            Ok(Some(setter()))
        } else {
            Err(DiagnosticView { span: meta.span, message: ONLY_GET_AND_SET@ })
        },
    }
}

/// The accessors that the elements of a marker's list ask for, in order.
/// The first element that is not accepted makes the whole fail.
pub open spec fn list_fn_types(nested: Seq<NestedMetaView>) -> Result<Seq<FnType>, DiagnosticView>
    decreases nested.len(),
{
    if nested.len() == 0 {
        Ok(Seq::empty())
    } else {
        match list_fn_types(nested.drop_last()) {
            Err(e) => Err(e),
            Ok(before) => match item_fn_type(nested.last()) {
                Err(e) => Err(e),
                Ok(Some(fn_type)) => Ok(before.push(fn_type)),
                Ok(None) => Ok(before),
            },
        }
    }
}

impl AttributeView {
    /// Whether the attribute is a marker: a list under the path `pyo3`.
    pub open spec fn is_marker(self) -> bool {
        self.list matches Some(list) && list.path.is_ident(MARKER@)
    }

    /// The accessors that the attribute asks for: those of its list where
    /// it is a marker, none where it is not.
    pub open spec fn fn_types(self) -> Result<Seq<FnType>, DiagnosticView> {
        if self.is_marker() {
            list_fn_types(self.list->Some_0.nested)
        } else {
            Ok(Seq::empty())
        }
    }
}

/// The accessors that the attributes of a member ask for, in the order of
/// the attributes. The first attribute that is not accepted makes the whole
/// fail.
pub open spec fn descriptors_of(attrs: Seq<AttributeView>) -> Result<Seq<FnType>, DiagnosticView>
    decreases attrs.len(),
{
    if attrs.len() == 0 {
        Ok(Seq::empty())
    } else {
        match descriptors_of(attrs.drop_last()) {
            Err(e) => Err(e),
            Ok(before) => match attrs.last().fn_types() {
                Err(e) => Err(e),
                Ok(fn_types) => Ok(before + fn_types),
            },
        }
    }
}

/// The attributes that are no markers, in their order.
pub open spec fn surviving(attrs: Seq<AttributeView>) -> Seq<AttributeView> {
    attrs.filter(|a: AttributeView| !a.is_marker())
}

impl FieldView {
    /// The member without its markers.
    pub open spec fn stripped(self) -> FieldView {
        FieldView { attrs: surviving(self.attrs), ..self }
    }
}

impl MetaList {
    /// The accessors that the elements of the list ask for.
    pub fn fn_types(&self) -> (r: Result<Vec<FnType>, Diagnostic>)
        ensures
            match list_fn_types(self@.nested) {
                Ok(fn_types) => r matches Ok(v) && v@ == fn_types,
                Err(e) => r matches Err(d) && d@ == e,
            },
    {
        let ghost nested = self@.nested;
        let mut out: Vec<FnType> = Vec::new();
        let mut i: usize = 0;
        while i < self.nested.len()
            invariant
                i <= self.nested.len(),
                nested == self@.nested,
                list_fn_types(nested.take(i as int)) == Ok::<Seq<FnType>, DiagnosticView>(out@),
            decreases self.nested.len() - i,
        {
            proof {
                assert(nested.take(i + 1).drop_last() =~= nested.take(i as int));
                assert(nested.take(i + 1).last() == self.nested@[i as int]@);
            }
            match &self.nested[i] {
                NestedMeta::Meta(meta) => {
                    if meta.path.is_ident("get") {
                        out.push(FnType::Getter(SelfType::Receiver { mutable: false }));
                    } else if meta.path.is_ident("set") {
                        out.push(FnType::Setter(SelfType::Receiver { mutable: true }));
                    } else {
                        proof {
                            lemma_list_fails(nested, i as int);
                        }
                        return Err(Diagnostic::new(meta.span, ONLY_GET_AND_SET));
                    }
                },
                NestedMeta::Lit(_) => {},
            }
            i += 1;
        }
        assert(nested.take(i as int) =~= nested);
        Ok(out)
    }
}

impl Attribute {
    /// Whether the attribute is a marker.
    pub fn is_marker(&self) -> (r: bool)
        ensures
            r == self@.is_marker(),
    {
        match &self.list {
            Some(list) => list.path.is_ident(MARKER),
            None => false,
        }
    }
}

impl Field {
    /// The accessors that the markers of the member ask for. The member is
    /// only read.
    pub fn descriptors(&self) -> (r: Result<Vec<FnType>, Diagnostic>)
        ensures
            match descriptors_of(self@.attrs) {
                Ok(fn_types) => r matches Ok(v) && v@ == fn_types,
                Err(e) => r matches Err(d) && d@ == e,
            },
    {
        let ghost attrs = self@.attrs;
        let mut descs: Vec<FnType> = Vec::new();
        let mut i: usize = 0;
        while i < self.attrs.len()
            invariant
                i <= self.attrs.len(),
                attrs == self@.attrs,
                descriptors_of(attrs.take(i as int)) == Ok::<Seq<FnType>, DiagnosticView>(descs@),
            decreases self.attrs.len() - i,
        {
            let attr = &self.attrs[i];
            proof {
                assert(attrs.take(i + 1).drop_last() =~= attrs.take(i as int));
                assert(attrs.take(i + 1).last() == attr@);
            }
            if attr.is_marker() {
                match &attr.list {
                    Some(list) => {
                        match list.fn_types() {
                            Ok(mut fn_types) => {
                                descs.append(&mut fn_types);
                            },
                            Err(e) => {
                                proof {
                                    lemma_descriptors_fail(attrs, i as int);
                                }
                                return Err(e);
                            },
                        }
                    },
                    None => {},
                }
            } else {
                assert(descs@ + Seq::<FnType>::empty() =~= descs@);
            }
            i += 1;
        }
        assert(attrs.take(i as int) =~= attrs);
        Ok(descs)
    }

    /// Removes the markers from the attributes of the member. The other
    /// attributes stay as they are, in their order.
    pub fn strip_markers(&mut self)
        ensures
            final(self)@ == old(self)@.stripped(),
    {
        let mut taken: Vec<Attribute> = Vec::new();
        core::mem::swap(&mut self.attrs, &mut taken);
        let ghost all = taken@.map_values(|a: Attribute| a@);
        let ghost owned = taken@;
        assert(self.attrs@.map_values(|a: Attribute| a@) =~= surviving(all.take(0))) by {
            reveal(Seq::filter);
        }
        for attr in it: taken.into_iter()
            invariant
                it.seq() == owned,
                all == owned.map_values(|a: Attribute| a@),
                self.attrs@.map_values(|a: Attribute| a@) == surviving(
                    all.take(it.index() as int),
                ),
                self.ident == old(self).ident,
                self.doc == old(self).doc,
                self.span == old(self).span,
        {
            proof {
                let i = it.index() as int;
                assert(all.take(i + 1).drop_last() =~= all.take(i));
                assert(all.take(i + 1).last() == attr@);
                assert(self.attrs@.push(attr).map_values(|a: Attribute| a@)
                    =~= self.attrs@.map_values(|a: Attribute| a@).push(attr@));
                reveal(Seq::filter);
            }
            if !attr.is_marker() {
                self.attrs.push(attr);
            }
        }
        assert(all.take(all.len() as int) =~= all);
    }
}

/// Reads the accessors that the markers of `item` ask for and removes the
/// markers. Where a marker is not accepted the member stays as it is.
pub fn parse_descriptors(item: &mut Field) -> (r: Result<Vec<FnType>, Diagnostic>)
    ensures
        match descriptors_of(old(item)@.attrs) {
            Ok(fn_types) => r matches Ok(v) && v@ == fn_types && final(item)@ == old(
                item,
            )@.stripped(),
            Err(e) => r matches Err(d) && d@ == e && final(item)@ == old(item)@,
        },
{
    match item.descriptors() {
        Ok(descs) => {
            item.strip_markers();
            Ok(descs)
        },
        Err(e) => Err(e),
    }
}

/// Once a prefix of a marker's list fails, so does the whole list, with the
/// same diagnostic.
proof fn lemma_list_fails(nested: Seq<NestedMetaView>, i: int)
    requires
        0 <= i < nested.len(),
        list_fn_types(nested.take(i + 1)) is Err,
    ensures
        list_fn_types(nested) == list_fn_types(nested.take(i + 1)),
    decreases nested.len() - i,
{
    if i + 1 == nested.len() {
        assert(nested.take(i + 1) =~= nested);
    } else {
        assert(nested.take(i + 2).drop_last() =~= nested.take(i + 1));
        lemma_list_fails(nested, i + 1);
    }
}

/// Once a prefix of the attributes fails, so do all of them, with the same
/// diagnostic.
proof fn lemma_descriptors_fail(attrs: Seq<AttributeView>, i: int)
    requires
        0 <= i < attrs.len(),
        descriptors_of(attrs.take(i + 1)) is Err,
    ensures
        descriptors_of(attrs) == descriptors_of(attrs.take(i + 1)),
    decreases attrs.len() - i,
{
    if i + 1 == attrs.len() {
        assert(attrs.take(i + 1) =~= attrs);
    } else {
        assert(attrs.take(i + 2).drop_last() =~= attrs.take(i + 1));
        lemma_descriptors_fail(attrs, i + 1);
    }
}

} // verus!
