//! A plain-data syntax tree for the parts of a class declaration that the
//! generator reads: paths, the expressions of the attribute's argument list,
//! and source locations.
//!
//! Every node has a view, a value made of sequences of characters only, and
//! the contracts of the crate are stated over views.

use vstd::prelude::*;

verus! {

/// A source location. The generator never looks inside one: it copies the
/// location of the offending node into the diagnostic it reports.
#[derive(Clone, Copy, Debug, PartialEq, Eq, Structural)]
pub struct Span {
    pub id: usize,
}

impl Span {
    /// The location of the attribute invocation itself.
    pub open spec fn spec_call_site() -> Span {
        Span { id: 0 }
    }

    #[verifier::when_used_as_spec(spec_call_site)]
    pub fn call_site() -> (s: Span)
        ensures
            s == Span::spec_call_site(),
    {
        Span { id: 0 }
    }
}

/// One segment of a path: an identifier and, where present, the source text
/// of its generic arguments.
#[derive(Debug, PartialEq, Eq)]
pub struct PathSegment {
    pub ident: String,
    pub arguments: Option<String>,
}

/// The view of a [`PathSegment`].
pub struct PathSegmentView {
    pub ident: Seq<char>,
    pub arguments: Option<Seq<char>>,
}

/// A path such as `my_mod::BaseClass`.
#[derive(Debug, PartialEq, Eq)]
pub struct Path {
    pub leading_colon: bool,
    pub segments: Vec<PathSegment>,
    pub span: Span,
}

/// The view of a [`Path`].
pub struct PathView {
    pub leading_colon: bool,
    pub segments: Seq<PathSegmentView>,
    pub span: Span,
}

/// A path in expression position.
#[derive(Debug, PartialEq, Eq)]
pub struct ExprPath {
    pub path: Path,
    pub span: Span,
}

/// The view of an [`ExprPath`].
pub struct ExprPathView {
    pub path: PathView,
    pub span: Span,
}

/// A string literal; `value` is the text between the quotes, unescaped.
#[derive(Debug, PartialEq, Eq)]
pub struct LitStr {
    pub value: String,
    pub span: Span,
}

/// The view of a [`LitStr`].
pub struct LitStrView {
    pub value: Seq<char>,
    pub span: Span,
}

/// Any expression that is neither a path nor a string literal, kept as its
/// source text.
#[derive(Debug, PartialEq, Eq)]
pub struct Verbatim {
    pub tokens: String,
    pub span: Span,
}

/// The view of a [`Verbatim`].
pub struct VerbatimView {
    pub tokens: Seq<char>,
    pub span: Span,
}

/// An expression on either side of `=`.
#[derive(Debug, PartialEq, Eq)]
pub enum Expr {
    Path(ExprPath),
    Str(LitStr),
    Verbatim(Verbatim),
}

/// The view of an [`Expr`].
pub enum ExprView {
    Path(ExprPathView),
    Str(LitStrView),
    Verbatim(VerbatimView),
}

/// `left = right`.
#[derive(Debug, PartialEq, Eq)]
pub struct ExprAssign {
    pub left: Expr,
    pub right: Expr,
    pub span: Span,
}

/// The view of an [`ExprAssign`].
pub struct ExprAssignView {
    pub left: ExprView,
    pub right: ExprView,
    pub span: Span,
}

/// One element of the comma separated argument list.
#[derive(Debug, PartialEq, Eq)]
pub enum Argument {
    Expr(Expr),
    Assign(ExprAssign),
}

/// The view of an [`Argument`].
pub enum ArgumentView {
    Expr(ExprView),
    Assign(ExprAssignView),
}

/// The characters of a text that may be absent.
pub open spec fn view_of_text(text: Option<String>) -> Option<Seq<char>> {
    match text {
        Some(t) => Some(t@),
        None => None,
    }
}

impl View for PathSegment {
    type V = PathSegmentView;

    open spec fn view(&self) -> PathSegmentView {
        PathSegmentView { ident: self.ident@, arguments: view_of_text(self.arguments) }
    }
}

impl View for Path {
    type V = PathView;

    open spec fn view(&self) -> PathView {
        PathView {
            leading_colon: self.leading_colon,
            segments: self.segments@.map_values(|s: PathSegment| s@),
            span: self.span,
        }
    }
}

impl View for ExprPath {
    type V = ExprPathView;

    open spec fn view(&self) -> ExprPathView {
        ExprPathView { path: self.path@, span: self.span }
    }
}

impl View for LitStr {
    type V = LitStrView;

    open spec fn view(&self) -> LitStrView {
        LitStrView { value: self.value@, span: self.span }
    }
}

impl View for Verbatim {
    type V = VerbatimView;

    open spec fn view(&self) -> VerbatimView {
        VerbatimView { tokens: self.tokens@, span: self.span }
    }
}

impl View for Expr {
    type V = ExprView;

    open spec fn view(&self) -> ExprView {
        match self {
            Expr::Path(p) => ExprView::Path(p@),
            Expr::Str(s) => ExprView::Str(s@),
            Expr::Verbatim(v) => ExprView::Verbatim(v@),
        }
    }
}

impl View for ExprAssign {
    type V = ExprAssignView;

    open spec fn view(&self) -> ExprAssignView {
        ExprAssignView { left: self.left@, right: self.right@, span: self.span }
    }
}

impl View for Argument {
    type V = ArgumentView;

    open spec fn view(&self) -> ArgumentView {
        match self {
            Argument::Expr(e) => ArgumentView::Expr(e@),
            Argument::Assign(a) => ArgumentView::Assign(a@),
        }
    }
}

impl PathView {
    /// The path without a leading `::` whose segments are the given
    /// identifiers, without generic arguments.
    pub open spec fn of_idents(idents: Seq<Seq<char>>, span: Span) -> PathView {
        PathView {
            leading_colon: false,
            segments: idents.map_values(
                |i: Seq<char>| PathSegmentView { ident: i, arguments: None },
            ),
            span,
        }
    }

    /// The identifier that the path consists of, if it is a single bare
    /// identifier: no leading `::`, one segment, no generic arguments.
    pub open spec fn get_ident(self) -> Option<Seq<char>> {
        if !self.leading_colon && self.segments.len() == 1 && self.segments[0].arguments is None {
            Some(self.segments[0].ident)
        } else {
            None
        }
    }

    /// Whether the path is the bare identifier `name`.
    pub open spec fn is_ident(self, name: Seq<char>) -> bool {
        self.get_ident() == Some(name)
    }
}

impl ExprView {
    /// The location of the whole expression.
    pub open spec fn span(self) -> Span {
        match self {
            ExprView::Path(p) => p.span,
            ExprView::Str(s) => s.span,
            ExprView::Verbatim(v) => v.span,
        }
    }
}

impl Clone for PathSegment {
    fn clone(&self) -> (r: PathSegment)
        ensures
            r@ == self@,
    {
        let arguments = match &self.arguments {
            Some(a) => Some(a.clone()),
            None => None,
        };
        PathSegment { ident: self.ident.clone(), arguments }
    }
}

impl Path {
    /// Whether the path is the bare identifier `name`.
    pub fn is_ident(&self, name: &str) -> (r: bool)
        ensures
            r == self@.is_ident(name@),
    {
        if self.leading_colon || self.segments.len() != 1 {
            return false;
        }
        let segment = &self.segments[0];
        assert(self@.segments[0] == segment@);
        segment.arguments.is_none() && crate::text::same_text(&segment.ident, name)
    }
}

impl Clone for Path {
    fn clone(&self) -> (r: Path)
        ensures
            r@ == self@,
    {
        let mut segments: Vec<PathSegment> = Vec::new();
        let mut i: usize = 0;
        while i < self.segments.len()
            invariant
                i <= self.segments.len(),
                segments@.len() == i,
                forall|k: int| 0 <= k < i ==> segments@[k]@ == self.segments@[k]@,
            decreases self.segments.len() - i,
        {
            segments.push(self.segments[i].clone());
            i += 1;
        }
        let r = Path { leading_colon: self.leading_colon, segments, span: self.span };
        assert(r@.segments =~= self@.segments);
        r
    }
}

impl Clone for ExprPath {
    fn clone(&self) -> (r: ExprPath)
        ensures
            r@ == self@,
    {
        ExprPath { path: self.path.clone(), span: self.span }
    }
}

impl Clone for LitStr {
    fn clone(&self) -> (r: LitStr)
        ensures
            r@ == self@,
    {
        LitStr { value: self.value.clone(), span: self.span }
    }
}

impl Clone for Verbatim {
    fn clone(&self) -> (r: Verbatim)
        ensures
            r@ == self@,
    {
        Verbatim { tokens: self.tokens.clone(), span: self.span }
    }
}

impl Clone for Expr {
    fn clone(&self) -> (r: Expr)
        ensures
            r@ == self@,
    {
        match self {
            Expr::Path(p) => Expr::Path(p.clone()),
            Expr::Str(s) => Expr::Str(s.clone()),
            Expr::Verbatim(v) => Expr::Verbatim(v.clone()),
        }
    }
}

impl Expr {
    /// The location of the whole expression.
    pub fn span(&self) -> (s: Span)
        ensures
            s == self@.span(),
    {
        match self {
            Expr::Path(p) => p.span,
            Expr::Str(s) => s.span,
            Expr::Verbatim(v) => v.span,
        }
    }
}

} // verus!
