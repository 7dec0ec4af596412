//! The configuration of a class: the flags and key/value pairs of the
//! attribute's argument list, gathered into one record.

use vstd::prelude::*;
use vstd::string::*;
use crate::diagnostic::{
    Diagnostic, DiagnosticView, EXPECTED_FLAG, EXPECTED_IDENT, EXPECTED_KEY, EXPECTED_NAME,
    EXPECTED_PATH, EXPECTED_STRING, FAILED_TO_PARSE, QUOTE, UNQUOTED_NAME,
};
use crate::ident::{ident_in, parse_ident};
use crate::syntax::{
    Argument, ArgumentView, Expr, ExprAssign, ExprAssignView, ExprPath, ExprPathView, ExprView,
    LitStr, LitStrView, Path, PathSegment, PathView, Span, view_of_text,
};
use crate::text::{join, same_text};

pub mod laws;

verus! {

/// The parsed arguments of the class attribute.
#[derive(Debug, PartialEq, Eq)]
pub struct PyClassArgs {
    pub freelist: Option<Expr>,
    pub name: Option<String>,
    pub base: Path,
    pub has_dict: bool,
    pub has_weaklist: bool,
    pub is_gc: bool,
    pub is_basetype: bool,
    pub has_extends: bool,
    pub has_unsendable: bool,
    pub module: Option<LitStr>,
}

/// The view of a [`PyClassArgs`].
pub struct PyClassArgsView {
    pub freelist: Option<ExprView>,
    pub name: Option<Seq<char>>,
    pub base: PathView,
    pub has_dict: bool,
    pub has_weaklist: bool,
    pub is_gc: bool,
    pub is_basetype: bool,
    pub has_extends: bool,
    pub has_unsendable: bool,
    pub module: Option<LitStrView>,
}

impl View for PyClassArgs {
    type V = PyClassArgsView;

    open spec fn view(&self) -> PyClassArgsView {
        PyClassArgsView {
            freelist: match self.freelist {
                Some(e) => Some(e@),
                None => None,
            },
            name: view_of_text(self.name),
            base: self.base@,
            has_dict: self.has_dict,
            has_weaklist: self.has_weaklist,
            is_gc: self.is_gc,
            is_basetype: self.is_basetype,
            has_extends: self.has_extends,
            has_unsendable: self.has_unsendable,
            module: match self.module {
                Some(m) => Some(m@),
                None => None,
            },
        }
    }
}

/// The base of a class that names none: the root object type.
pub open spec fn root_base() -> PathView {
    PathView::of_idents(seq!["pyo3"@, "PyAny"@], Span::call_site())
}

impl PyClassArgsView {
    /// The record of an empty argument list.
    pub open spec fn default() -> PyClassArgsView {
        PyClassArgsView {
            freelist: None,
            name: None,
            base: root_base(),
            has_dict: false,
            has_weaklist: false,
            is_gc: false,
            is_basetype: false,
            has_extends: false,
            has_unsendable: false,
            module: None,
        }
    }
}

impl Default for PyClassArgs {
    fn default() -> (r: PyClassArgs)
        ensures
            r@ == PyClassArgsView::default(),
            r@.wf(),
    {
        let mut segments: Vec<PathSegment> = Vec::new();
        segments.push(PathSegment { ident: "pyo3".to_owned(), arguments: None });
        segments.push(PathSegment { ident: "PyAny".to_owned(), arguments: None });
        let base = Path { leading_colon: false, segments, span: Span::call_site() };
        assert(base@.segments =~= root_base().segments);
        PyClassArgs {
            freelist: None,
            name: None,
            module: None,
            base,
            has_dict: false,
            has_weaklist: false,
            is_gc: false,
            is_basetype: false,
            has_extends: false,
            has_unsendable: false,
        }
    }
}

/// The message for a `name` whose value is the bare identifier `ident`.
pub open spec fn unquoted_name_message(ident: Seq<char>) -> Seq<char> {
    UNQUOTED_NAME@ + ident + QUOTE@
}

/// The record with the flag `flag` set. `span` is where the flag stands.
pub open spec fn with_flag(args: PyClassArgsView, flag: Seq<char>, span: Span) -> Result<
    PyClassArgsView,
    DiagnosticView,
> {
    if flag == "gc"@ {
        Ok(PyClassArgsView { is_gc: true, ..args })
    } else if flag == "weakref"@ {
        Ok(PyClassArgsView { has_weaklist: true, ..args })
    } else if flag == "subclass"@ {
        Ok(PyClassArgsView { is_basetype: true, ..args })
    } else if flag == "dict"@ {
        Ok(PyClassArgsView { has_dict: true, ..args })
    } else if flag == "unsendable"@ {
        Ok(PyClassArgsView { has_unsendable: true, ..args })
    } else {
        Err(DiagnosticView { span, message: EXPECTED_FLAG@ })
    }
}

/// The record after the flag that `exp` spells: the identifier of its first
/// segment.
pub open spec fn with_path(args: PyClassArgsView, exp: ExprPathView) -> Result<
    PyClassArgsView,
    DiagnosticView,
> {
    if exp.path.segments.len() > 0 {
        with_flag(args, exp.path.segments[0].ident, exp.path.span)
    } else {
        Err(DiagnosticView { span: exp.path.span, message: EXPECTED_FLAG@ })
    }
}

/// The record with the name that the content of a string literal spells.
/// `parsed` is the identifier read from the literal, `span` where the
/// literal stands.
pub open spec fn with_name(args: PyClassArgsView, parsed: Option<Seq<char>>, span: Span) -> Result<
    PyClassArgsView,
    DiagnosticView,
> {
    match parsed {
        Some(ident) => Ok(PyClassArgsView { name: Some(ident), ..args }),
        None => Err(DiagnosticView { span, message: EXPECTED_IDENT@ }),
    }
}

/// The record after `key = right`, where `left_span` is where the key
/// stands.
pub open spec fn with_key(
    args: PyClassArgsView,
    key: Seq<char>,
    left_span: Span,
    right: ExprView,
) -> Result<PyClassArgsView, DiagnosticView> {
    if key == "freelist"@ {
        Ok(PyClassArgsView { freelist: Some(right), ..args })
    } else if key == "name"@ {
        match right {
            ExprView::Str(lit) => with_name(args, ident_in(lit.value), lit.span),
            ExprView::Path(exp) => if exp.path.segments.len() == 1 {
                Err(
                    DiagnosticView {
                        span: exp.span,
                        message: unquoted_name_message(exp.path.segments[0].ident),
                    },
                )
            } else {
                Err(DiagnosticView { span: right.span(), message: EXPECTED_NAME@ })
            },
            _ => Err(DiagnosticView { span: right.span(), message: EXPECTED_NAME@ }),
        }
    } else if key == "extends"@ {
        match right {
            ExprView::Path(exp) => Ok(
                PyClassArgsView { base: exp.path, has_extends: true, ..args },
            ),
            _ => Err(DiagnosticView { span: right.span(), message: EXPECTED_PATH@ }),
        }
    } else if key == "module"@ {
        match right {
            ExprView::Str(lit) => Ok(PyClassArgsView { module: Some(lit), ..args }),
            _ => Err(DiagnosticView { span: right.span(), message: EXPECTED_STRING@ }),
        }
    } else {
        Err(DiagnosticView { span: left_span, message: EXPECTED_KEY@ })
    }
}

/// The key of an assignment: the identifier of its left side, where that is
/// a path of one segment.
pub open spec fn key_of(assign: ExprAssignView) -> Option<Seq<char>> {
    match assign.left {
        ExprView::Path(exp) => if exp.path.segments.len() == 1 {
            Some(exp.path.segments[0].ident)
        } else {
            None
        },
        _ => None,
    }
}

/// The record after the assignment `assign`.
pub open spec fn with_assign(args: PyClassArgsView, assign: ExprAssignView) -> Result<
    PyClassArgsView,
    DiagnosticView,
> {
    match key_of(assign) {
        Some(key) => with_key(args, key, assign.left.span(), assign.right),
        None => Err(DiagnosticView { span: assign.span, message: FAILED_TO_PARSE@ }),
    }
}

/// The record after one element of the argument list: a path of one segment
/// is a flag, an assignment is a key with its value, nothing else is
/// accepted.
pub open spec fn with_argument(args: PyClassArgsView, arg: ArgumentView) -> Result<
    PyClassArgsView,
    DiagnosticView,
> {
    match arg {
        ArgumentView::Assign(assign) => with_assign(args, assign),
        ArgumentView::Expr(expr) => match expr {
            ExprView::Path(exp) => if exp.path.segments.len() == 1 {
                with_path(args, exp)
            } else {
                Err(DiagnosticView { span: expr.span(), message: FAILED_TO_PARSE@ })
            },
            _ => Err(DiagnosticView { span: expr.span(), message: FAILED_TO_PARSE@ }),
        },
    }
}

/// The record after the elements of `list` in turn, starting from `args`.
/// The first element that is not accepted makes the whole fail, with the
/// diagnostic of that element.
pub open spec fn with_arguments(args: PyClassArgsView, list: Seq<ArgumentView>) -> Result<
    PyClassArgsView,
    DiagnosticView,
>
    decreases list.len(),
{
    if list.len() == 0 {
        Ok(args)
    } else {
        match with_arguments(args, list.drop_last()) {
            Ok(before) => with_argument(before, list.last()),
            Err(e) => Err(e),
        }
    }
}

/// The record of an argument list.
pub open spec fn parsed(list: Seq<ArgumentView>) -> Result<PyClassArgsView, DiagnosticView> {
    with_arguments(PyClassArgsView::default(), list)
}

/// What a step that was to take `before` to `expected` did: on success the
/// record is the expected one, on failure the diagnostic is the expected one
/// and the record is as it was.
pub open spec fn stepped(
    before: PyClassArgsView,
    after: PyClassArgsView,
    r: Result<(), Diagnostic>,
    expected: Result<PyClassArgsView, DiagnosticView>,
) -> bool {
    match expected {
        Ok(args) => r is Ok && after == args,
        Err(e) => r matches Err(d) && d@ == e && after == before,
    }
}

impl PyClassArgsView {
    /// A name is an identifier, and a class without `extends` has the root
    /// object type as its base.
    pub open spec fn wf(self) -> bool {
        &&& self.name matches Some(name) ==> exists|text: Seq<char>|
            ident_in(text) == Some(name)
        &&& !self.has_extends ==> self.base == root_base()
    }
}

impl PyClassArgs {
    /// Parses the argument list of the attribute.
    pub fn parse(list: &Vec<Argument>) -> (r: Result<PyClassArgs, Diagnostic>)
        ensures
            match parsed(list@.map_values(|a: Argument| a@)) {
                Ok(args) => r matches Ok(a) && a@ == args && a@.wf(),
                Err(e) => r matches Err(d) && d@ == e,
            },
    {
        let ghost views = list@.map_values(|a: Argument| a@);
        let mut slf = PyClassArgs::default();
        let mut i: usize = 0;
        while i < list.len()
            invariant
                i <= list.len(),
                views == list@.map_values(|a: Argument| a@),
                with_arguments(PyClassArgsView::default(), views.take(i as int)) == Ok::<
                    PyClassArgsView,
                    DiagnosticView,
                >(slf@),
                slf@.wf(),
            decreases list.len() - i,
        {
            proof {
                assert(views.take(i + 1).drop_last() =~= views.take(i as int));
                assert(views.take(i + 1).last() == list@[i as int]@);
            }
            match slf.add_expr(&list[i]) {
                Ok(()) => {},
                Err(e) => {
                    proof {
                        lemma_arguments_fail(PyClassArgsView::default(), views, i as int);
                    }
                    return Err(e);
                },
            }
            i += 1;
        }
        assert(views.take(i as int) =~= views);
        Ok(slf)
    }

    /// Adds a single element of the comma separated list in the attribute,
    /// which is either a single word or an assignment.
    pub fn add_expr(&mut self, arg: &Argument) -> (r: Result<(), Diagnostic>)
        ensures
            stepped(old(self)@, final(self)@, r, with_argument(old(self)@, arg@)),
            old(self)@.wf() ==> final(self)@.wf(),
    {
        match arg {
            Argument::Assign(assign) => self.add_assign(assign),
            Argument::Expr(expr) => {
                match expr {
                    Expr::Path(exp) => {
                        if exp.path.segments.len() == 1 {
                            return self.add_path(exp);
                        }
                    },
                    _ => {},
                }
                Err(Diagnostic::new(expr.span(), FAILED_TO_PARSE))
            },
        }
    }

    /// Takes the name that a string literal spells. `parsed` is the
    /// identifier read from the literal, if it holds one, and `span` is
    /// where the literal stands.
    pub fn set_name(&mut self, parsed: Option<String>, span: Span) -> (r: Result<(), Diagnostic>)
        ensures
            stepped(
                old(self)@,
                final(self)@,
                r,
                with_name(old(self)@, view_of_text(parsed), span),
            ),
            old(self)@.wf() && (exists|text: Seq<char>| ident_in(text) == view_of_text(parsed))
                ==> final(self)@.wf(),
    {
        match parsed {
            Some(ident) => {
                self.name = Some(ident);
                Ok(())
            },
            None => Err(Diagnostic::new(span, EXPECTED_IDENT)),
        }
    }

    /// Matches a key with its value.
    pub fn add_assign(&mut self, assign: &ExprAssign) -> (r: Result<(), Diagnostic>)
        ensures
            stepped(old(self)@, final(self)@, r, with_assign(old(self)@, assign@)),
            old(self)@.wf() ==> final(self)@.wf(),
    {
        let key: &String = match &assign.left {
            Expr::Path(exp) => {
                if exp.path.segments.len() == 1 {
                    assert(exp@.path.segments[0] == exp.path.segments@[0]@);
                    &exp.path.segments[0].ident
                } else {
                    return Err(Diagnostic::new(assign.span, FAILED_TO_PARSE));
                }
            },
            _ => {
                return Err(Diagnostic::new(assign.span, FAILED_TO_PARSE));
            },
        };
        assert(key_of(assign@) == Some(key@));
        let right = &assign.right;

        if same_text(key, "freelist") {
            // Any expression is taken here, so that `8 * 64` can be written.
            self.freelist = Some(right.clone());
        } else if same_text(key, "name") {
            match right {
                Expr::Str(lit) => {
                    let parsed = parse_ident(lit.value.as_str());
                    return self.set_name(parsed, lit.span);
                },
                Expr::Path(exp) => {
                    if exp.path.segments.len() == 1 {
                        assert(exp@.path.segments[0] == exp.path.segments@[0]@);
                        let mut message = join(
                            UNQUOTED_NAME,
                            exp.path.segments[0].ident.as_str(),
                        );
                        message.append(QUOTE);
                        return Err(Diagnostic { span: exp.span, message });
                    }
                    return Err(Diagnostic::new(right.span(), EXPECTED_NAME));
                },
                _ => {
                    return Err(Diagnostic::new(right.span(), EXPECTED_NAME));
                },
            }
        } else if same_text(key, "extends") {
            match right {
                Expr::Path(exp) => {
                    self.base = exp.path.clone();
                    self.has_extends = true;
                },
                _ => {
                    return Err(Diagnostic::new(right.span(), EXPECTED_PATH));
                },
            }
        } else if same_text(key, "module") {
            match right {
                Expr::Str(lit) => {
                    self.module = Some(lit.clone());
                },
                _ => {
                    return Err(Diagnostic::new(right.span(), EXPECTED_STRING));
                },
            }
        } else {
            return Err(Diagnostic::new(assign.left.span(), EXPECTED_KEY));
        }
        Ok(())
    }

    /// Matches a single flag.
    pub fn add_path(&mut self, exp: &ExprPath) -> (r: Result<(), Diagnostic>)
        ensures
            stepped(old(self)@, final(self)@, r, with_path(old(self)@, exp@)),
            old(self)@.wf() ==> final(self)@.wf(),
    {
        if exp.path.segments.len() == 0 {
            return Err(Diagnostic::new(exp.path.span, EXPECTED_FLAG));
        }
        assert(exp@.path.segments[0] == exp.path.segments@[0]@);
        let flag = &exp.path.segments[0].ident;
        if same_text(flag, "gc") {
            self.is_gc = true;
        } else if same_text(flag, "weakref") {
            self.has_weaklist = true;
        } else if same_text(flag, "subclass") {
            self.is_basetype = true;
        } else if same_text(flag, "dict") {
            self.has_dict = true;
        } else if same_text(flag, "unsendable") {
            self.has_unsendable = true;
        } else {
            return Err(Diagnostic::new(exp.path.span, EXPECTED_FLAG));
        }
        Ok(())
    }
}

/// Once a prefix of the list fails, so does the whole list, with the same
/// diagnostic.
pub(crate) proof fn lemma_arguments_fail(args: PyClassArgsView, list: Seq<ArgumentView>, i: int)
    requires
        0 <= i < list.len(),
        with_arguments(args, list.take(i + 1)) is Err,
    ensures
        with_arguments(args, list) == with_arguments(args, list.take(i + 1)),
    decreases list.len() - i,
{
    if i + 1 == list.len() {
        assert(list.take(i + 1) =~= list);
    } else {
        assert(list.take(i + 2).drop_last() =~= list.take(i + 1));
        lemma_arguments_fail(args, list, i + 1);
    }
}

} // verus!
