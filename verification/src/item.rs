//! The declaration of a class: its identifier, its generic parameters and
//! its members.

use vstd::prelude::*;
use vstd::string::*;
use crate::diagnostic::{Diagnostic, DiagnosticView};
use crate::fields::{Field, FieldDescriptors, FieldDescriptorsView, FieldView, descriptors_of};
use crate::syntax::Span;

verus! {

/// The generic parameters of a declaration, each as its source text.
#[derive(Debug, PartialEq, Eq)]
pub struct Generics {
    pub params: Vec<String>,
    pub span: Span,
}

/// The view of a [`Generics`].
pub struct GenericsView {
    pub params: Seq<Seq<char>>,
    pub span: Span,
}

/// The members of a declaration.
#[derive(Debug, PartialEq, Eq)]
pub enum Fields {
    Named(Vec<Field>),
    Unnamed(Vec<Field>),
    Unit,
}

/// The view of a [`Fields`].
pub enum FieldsView {
    Named(Seq<FieldView>),
    Unnamed(Seq<FieldView>),
    Unit,
}

/// The declaration of a class.
#[derive(Debug, PartialEq, Eq)]
pub struct ItemStruct {
    pub ident: String,
    pub generics: Generics,
    pub fields: Fields,
}

/// The view of an [`ItemStruct`].
pub struct ItemStructView {
    pub ident: Seq<char>,
    pub generics: GenericsView,
    pub fields: FieldsView,
}

impl View for Generics {
    type V = GenericsView;

    open spec fn view(&self) -> GenericsView {
        GenericsView { params: self.params@.map_values(|p: String| p@), span: self.span }
    }
}

impl View for Fields {
    type V = FieldsView;

    open spec fn view(&self) -> FieldsView {
        match self {
            Fields::Named(fields) => FieldsView::Named(fields@.map_values(|f: Field| f@)),
            Fields::Unnamed(fields) => FieldsView::Unnamed(fields@.map_values(|f: Field| f@)),
            Fields::Unit => FieldsView::Unit,
        }
    }
}

impl View for ItemStruct {
    type V = ItemStructView;

    open spec fn view(&self) -> ItemStructView {
        ItemStructView { ident: self.ident@, generics: self.generics@, fields: self.fields@ }
    }
}

/// Each member without its markers.
pub open spec fn stripped_members(members: Seq<FieldView>) -> Seq<FieldView> {
    members.map_values(|f: FieldView| f.stripped())
}

impl FieldsView {
    /// The members in the order of the declaration; a unit declaration has
    /// none.
    pub open spec fn members(self) -> Seq<FieldView> {
        match self {
            FieldsView::Named(fields) => fields,
            FieldsView::Unnamed(fields) => fields,
            FieldsView::Unit => Seq::empty(),
        }
    }

    pub open spec fn stripped(self) -> FieldsView {
        match self {
            FieldsView::Named(fields) => FieldsView::Named(stripped_members(fields)),
            FieldsView::Unnamed(fields) => FieldsView::Unnamed(stripped_members(fields)),
            FieldsView::Unit => FieldsView::Unit,
        }
    }
}

impl ItemStructView {
    /// The declaration with the markers removed from every member.
    pub open spec fn stripped(self) -> ItemStructView {
        ItemStructView { fields: self.fields.stripped(), ..self }
    }
}

/// The accessors asked for on the members, one entry for each member that
/// asks for any, in the order of the members. The first member with a
/// marker that is not accepted makes the whole fail.
pub open spec fn member_descriptors(members: Seq<FieldView>) -> Result<
    Seq<FieldDescriptorsView>,
    DiagnosticView,
>
    decreases members.len(),
{
    if members.len() == 0 {
        Ok(Seq::empty())
    } else {
        match member_descriptors(members.drop_last()) {
            Err(e) => Err(e),
            Ok(before) => {
                let member = members.last();
                match descriptors_of(member.attrs) {
                    Err(e) => Err(e),
                    Ok(fns) => if fns.len() == 0 {
                        Ok(before)
                    } else {
                        Ok(
                            before.push(
                                FieldDescriptorsView {
                                    ident: member.ident,
                                    doc: member.doc,
                                    span: member.span,
                                    fns,
                                },
                            ),
                        )
                    },
                }
            },
        }
    }
}

/// Reads the accessors asked for on `members`. The members are only read.
pub fn collect_descriptors(members: &Vec<Field>) -> (r: Result<Vec<FieldDescriptors>, Diagnostic>)
    ensures
        match member_descriptors(members@.map_values(|f: Field| f@)) {
            Ok(descriptors) => r matches Ok(v) && v@.map_values(|d: FieldDescriptors| d@)
                == descriptors,
            Err(e) => r matches Err(d) && d@ == e,
        },
{
    let ghost views = members@.map_values(|f: Field| f@);
    let mut out: Vec<FieldDescriptors> = Vec::new();
    let mut i: usize = 0;
    assert(out@.map_values(|d: FieldDescriptors| d@) =~= Seq::empty());
    while i < members.len()
        invariant
            i <= members.len(),
            views == members@.map_values(|f: Field| f@),
            member_descriptors(views.take(i as int)) == Ok::<
                Seq<FieldDescriptorsView>,
                DiagnosticView,
            >(out@.map_values(|d: FieldDescriptors| d@)),
        decreases members.len() - i,
    {
        let field = &members[i];
        proof {
            assert(views.take(i + 1).drop_last() =~= views.take(i as int));
            assert(views.take(i + 1).last() == field@);
        }
        match field.descriptors() {
            Ok(fns) => {
                if fns.len() > 0 {
                    let ident = match &field.ident {
                        Some(ident) => Some(ident.clone()),
                        None => None,
                    };
                    let doc = match &field.doc {
                        Some(doc) => Some(doc.clone()),
                        None => None,
                    };
                    let entry = FieldDescriptors { ident, doc, span: field.span, fns };
                    assert(out@.push(entry).map_values(|d: FieldDescriptors| d@) =~= out@.map_values(
                        |d: FieldDescriptors| d@,
                    ).push(entry@));
                    out.push(entry);
                }
            },
            Err(e) => {
                proof {
                    lemma_members_fail(views, i as int);
                }
                return Err(e);
            },
        }
        i += 1;
    }
    assert(views.take(i as int) =~= views);
    Ok(out)
}

/// Removes the markers from every member.
pub fn strip_members(members: &mut Vec<Field>)
    ensures
        final(members)@.map_values(|f: Field| f@) == stripped_members(
            old(members)@.map_values(|f: Field| f@),
        ),
{
    let mut taken: Vec<Field> = Vec::new();
    core::mem::swap(members, &mut taken);
    let ghost owned = taken@;
    let ghost views = owned.map_values(|f: Field| f@);
    for field in it: taken.into_iter()
        invariant
            it.seq() == owned,
            views == owned.map_values(|f: Field| f@),
            members@.len() == it.index(),
            forall|k: int|
                0 <= k < it.index() ==> (#[trigger] members@[k])@ == views[k].stripped(),
    {
        let mut field = field;
        field.strip_markers();
        members.push(field);
    }
    assert(members@.map_values(|f: Field| f@) =~= stripped_members(views));
}

/// Once a prefix of the members fails, so do all of them, with the same
/// diagnostic.
proof fn lemma_members_fail(members: Seq<FieldView>, i: int)
    requires
        0 <= i < members.len(),
        member_descriptors(members.take(i + 1)) is Err,
    ensures
        member_descriptors(members) == member_descriptors(members.take(i + 1)),
    decreases members.len() - i,
{
    if i + 1 == members.len() {
        assert(members.take(i + 1) =~= members);
    } else {
        assert(members.take(i + 2).drop_last() =~= members.take(i + 1));
        lemma_members_fail(members, i + 1);
    }
}

} // verus!
