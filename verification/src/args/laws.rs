//! What holds of parsing an argument list, whatever the list.

use vstd::prelude::*;
use vstd::string::*;
use crate::args::{
    PyClassArgsView, key_of, lemma_arguments_fail, parsed, root_base, unquoted_name_message,
    with_argument, with_assign,
};
use crate::diagnostic::{DiagnosticView, EXPECTED_NAME, EXPECTED_PATH, EXPECTED_STRING};
use crate::ident::ident_in;
use crate::syntax::{ArgumentView, ExprAssignView, ExprPathView, ExprView};

verus! {

impl ArgumentView {
    /// Whether the element is the flag `name`: a path of one segment with
    /// that identifier.
    pub open spec fn is_flag(self, name: Seq<char>) -> bool {
        self matches ArgumentView::Expr(ExprView::Path(exp)) && exp.path.segments.len() == 1
            && exp.path.segments[0].ident == name
    }

    /// Whether the element is one of the five flags.
    pub open spec fn is_known_flag(self) -> bool {
        ||| self.is_flag("gc"@)
        ||| self.is_flag("weakref"@)
        ||| self.is_flag("subclass"@)
        ||| self.is_flag("dict"@)
        ||| self.is_flag("unsendable"@)
    }

    /// Whether the element assigns to the key `key`.
    pub open spec fn assigns(self, key: Seq<char>) -> bool {
        self matches ArgumentView::Assign(assign) && key_of(assign) == Some(key)
    }
}

/// Whether the flag `name` stands somewhere in the list.
pub open spec fn has_flag(list: Seq<ArgumentView>, name: Seq<char>) -> bool {
    exists|i: int| 0 <= i < list.len() && (#[trigger] list[i]).is_flag(name)
}

/// Whether some element of the list assigns to the key `key`.
pub open spec fn has_key(list: Seq<ArgumentView>, key: Seq<char>) -> bool {
    exists|i: int| 0 <= i < list.len() && (#[trigger] list[i]).assigns(key)
}

/// The record in which exactly the flags of the list are set.
pub open spec fn flags_of(list: Seq<ArgumentView>) -> PyClassArgsView {
    PyClassArgsView {
        is_gc: has_flag(list, "gc"@),
        has_weaklist: has_flag(list, "weakref"@),
        is_basetype: has_flag(list, "subclass"@),
        has_dict: has_flag(list, "dict"@),
        has_unsendable: has_flag(list, "unsendable"@),
        ..PyClassArgsView::default()
    }
}

/// Whether `right` is a value of the wrong kind for `key`: for `name`
/// neither a string literal nor a path of one segment, for `extends` no
/// path, for `module` no string literal. Any value is of the right kind
/// for `freelist`.
pub open spec fn wrong_kind(key: Seq<char>, right: ExprView) -> bool {
    ||| key == "name"@ && !(right is Str) && !(right matches ExprView::Path(exp)
        && exp.path.segments.len() == 1)
    ||| key == "extends"@ && !(right is Path)
    ||| key == "module"@ && !(right is Str)
}

/// The message that names the kind of value that `key` takes.
pub open spec fn expected_kind(key: Seq<char>) -> Seq<char> {
    if key == "name"@ {
        EXPECTED_NAME@
    } else if key == "extends"@ {
        EXPECTED_PATH@
    } else {
        EXPECTED_STRING@
    }
}

/// The names of the five flags differ from one another.
pub proof fn flag_names_differ()
    ensures
        "gc"@ != "weakref"@,
        "gc"@ != "subclass"@,
        "gc"@ != "dict"@,
        "gc"@ != "unsendable"@,
        "weakref"@ != "subclass"@,
        "weakref"@ != "dict"@,
        "weakref"@ != "unsendable"@,
        "subclass"@ != "dict"@,
        "subclass"@ != "unsendable"@,
        "dict"@ != "unsendable"@,
{
    reveal_strlit("gc");
    reveal_strlit("weakref");
    reveal_strlit("subclass");
    reveal_strlit("dict");
    reveal_strlit("unsendable");
    assert("gc"@.len() == 2);
    assert("weakref"@.len() == 7);
    assert("subclass"@.len() == 8);
    assert("dict"@.len() == 4);
    assert("unsendable"@.len() == 10);
}

/// The names of the four keys differ from one another.
pub proof fn key_names_differ()
    ensures
        "freelist"@ != "name"@,
        "freelist"@ != "extends"@,
        "freelist"@ != "module"@,
        "name"@ != "extends"@,
        "name"@ != "module"@,
        "extends"@ != "module"@,
{
    reveal_strlit("freelist");
    reveal_strlit("name");
    reveal_strlit("extends");
    reveal_strlit("module");
    assert("freelist"@.len() == 8);
    assert("name"@.len() == 4);
    assert("extends"@.len() == 7);
    assert("module"@.len() == 6);
}

/// A list of flags parses, whatever flags it holds and in whatever order,
/// to the record in which exactly the flags of the list are set: every
/// other flag is unset, there is no pool, no name and no module, and the
/// base is that of a class without `extends`.
pub proof fn flag_list_parses_to_its_flags(list: Seq<ArgumentView>)
    requires
        forall|i: int| 0 <= i < list.len() ==> (#[trigger] list[i]).is_known_flag(),
    ensures
        parsed(list) == Ok::<PyClassArgsView, DiagnosticView>(flags_of(list)),
    decreases list.len(),
{
    flag_names_differ();
    if list.len() == 0 {
        assert(flags_of(list) == PyClassArgsView::default());
    } else {
        let front = list.drop_last();
        let last = list.last();
        flag_list_parses_to_its_flags(front);
        assert(last == list[list.len() - 1]);
        assert(last.is_known_flag());
        assert forall|name: Seq<char>| has_flag(list, name) == (has_flag(front, name)
            || last.is_flag(name)) by {
            if has_flag(front, name) {
                let i = choose|i: int| 0 <= i < front.len() && (#[trigger] front[i]).is_flag(name);
                assert(list[i].is_flag(name));
            }
            if last.is_flag(name) {
                assert(list[list.len() - 1].is_flag(name));
            }
            if has_flag(list, name) {
                let i = choose|i: int| 0 <= i < list.len() && (#[trigger] list[i]).is_flag(name);
                if i < front.len() {
                    assert(front[i].is_flag(name));
                }
            }
        }
        assert(with_argument(flags_of(front), last) == Ok::<PyClassArgsView, DiagnosticView>(
            flags_of(list),
        ));
    }
}

/// A key with a value of the wrong kind is not accepted, whatever the
/// record: the diagnostic names the kind that the key takes, at the value.
pub proof fn wrong_kind_is_rejected(args: PyClassArgsView, assign: ExprAssignView, key: Seq<char>)
    requires
        key_of(assign) == Some(key),
        wrong_kind(key, assign.right),
    ensures
        with_assign(args, assign) == Err::<PyClassArgsView, DiagnosticView>(
            DiagnosticView { span: assign.right.span(), message: expected_kind(key) },
        ),
{
    key_names_differ();
}

/// A list with an element that is not accepted does not parse. Where the
/// elements before it are accepted, the diagnostic is that of the element.
pub proof fn parse_fails_at(list: Seq<ArgumentView>, i: int)
    requires
        0 <= i < list.len(),
        !accepted(list[i]),
    ensures
        parsed(list) is Err,
        parsed(list.take(i)) matches Ok(before) ==> parsed(list) == with_argument(before, list[i]),
{
    let start = PyClassArgsView::default();
    assert(list.take(i + 1).drop_last() =~= list.take(i));
    assert(list.take(i + 1).last() == list[i]);
    match parsed(list.take(i)) {
        Ok(before) => {
            acceptance_ignores_record(before, list[i]);
        },
        Err(_) => {},
    }
    lemma_arguments_fail(start, list, i);
}

/// A list in which a key has a value of the wrong kind does not parse.
/// Where the elements before that one are accepted, the diagnostic names
/// the kind that the key takes, at the value.
pub proof fn wrong_kind_fails_parse(list: Seq<ArgumentView>, i: int, key: Seq<char>)
    requires
        0 <= i < list.len(),
        list[i] matches ArgumentView::Assign(assign) && key_of(assign) == Some(key) && wrong_kind(
            key,
            assign.right,
        ),
    ensures
        parsed(list) is Err,
        parsed(list.take(i)) is Ok ==> parsed(list) == Err::<PyClassArgsView, DiagnosticView>(
            DiagnosticView {
                span: list[i]->Assign_0.right.span(),
                message: expected_kind(key),
            },
        ),
{
    let assign = list[i]->Assign_0;
    wrong_kind_is_rejected(PyClassArgsView::default(), assign, key);
    parse_fails_at(list, i);
    if parsed(list.take(i)) is Ok {
        wrong_kind_is_rejected(parsed(list.take(i))->Ok_0, assign, key);
    }
}

/// A list without `extends` that parses gives a class that is no subclass,
/// with the root object type as its base.
pub proof fn without_extends_base_is_root(list: Seq<ArgumentView>)
    requires
        !has_key(list, "extends"@),
        parsed(list) is Ok,
    ensures
        !parsed(list)->Ok_0.has_extends,
        parsed(list)->Ok_0.base == root_base(),
    decreases list.len(),
{
    key_names_differ();
    if list.len() > 0 {
        let front = list.drop_last();
        assert forall|i: int| 0 <= i < front.len() implies !(#[trigger] front[i]).assigns(
            "extends"@,
        ) by {
            assert(!list[i].assigns("extends"@));
        }
        without_extends_base_is_root(front);
        assert(!list[list.len() - 1].assigns("extends"@));
    }
}

/// Where the last `extends` of a list that parses is its element `i`, the
/// class is a subclass and its base is the path on the right of that
/// element.
pub proof fn extends_sets_base(list: Seq<ArgumentView>, i: int)
    requires
        is_last(list, "extends"@, i),
        parsed(list) is Ok,
    ensures
        parsed(list)->Ok_0.has_extends,
        list[i]->Assign_0.right matches ExprView::Path(exp) && parsed(list)->Ok_0.base
            == exp.path,
    decreases list.len(),
{
    key_names_differ();
    let front = list.drop_last();
    if i + 1 < list.len() {
        assert(!list[list.len() - 1].assigns("extends"@));
        assert(front[i] == list[i]);
        assert forall|k: int| i < k < front.len() implies !(#[trigger] front[k]).assigns(
            "extends"@,
        ) by {
            assert(!list[k].assigns("extends"@));
        }
        extends_sets_base(front, i);
    }
}

/// Where the last assignment to `key` in a list is its element `i`, that
/// element decides: an earlier assignment to the key is overwritten.
pub open spec fn is_last(list: Seq<ArgumentView>, key: Seq<char>, i: int) -> bool {
    &&& 0 <= i < list.len()
    &&& list[i].assigns(key)
    &&& forall|k: int| i < k < list.len() ==> !(#[trigger] list[k]).assigns(key)
}

/// The record of a list that parses reflects the list: a flag is set where
/// the list holds it, in whatever place, and a key has a value where some
/// element assigns to it.
pub proof fn record_reflects_list(list: Seq<ArgumentView>)
    requires
        parsed(list) is Ok,
    ensures
        parsed(list)->Ok_0.is_gc == has_flag(list, "gc"@),
        parsed(list)->Ok_0.has_weaklist == has_flag(list, "weakref"@),
        parsed(list)->Ok_0.is_basetype == has_flag(list, "subclass"@),
        parsed(list)->Ok_0.has_dict == has_flag(list, "dict"@),
        parsed(list)->Ok_0.has_unsendable == has_flag(list, "unsendable"@),
        parsed(list)->Ok_0.has_extends == has_key(list, "extends"@),
        parsed(list)->Ok_0.freelist is Some == has_key(list, "freelist"@),
        parsed(list)->Ok_0.name is Some == has_key(list, "name"@),
        parsed(list)->Ok_0.module is Some == has_key(list, "module"@),
    decreases list.len(),
{
    flag_names_differ();
    key_names_differ();
    if list.len() > 0 {
        let front = list.drop_last();
        let last = list.last();
        record_reflects_list(front);
        assert forall|name: Seq<char>| has_flag(list, name) == (has_flag(front, name)
            || last.is_flag(name)) by {
            if has_flag(front, name) {
                let i = choose|i: int| 0 <= i < front.len() && (#[trigger] front[i]).is_flag(name);
                assert(list[i].is_flag(name));
            }
            if last.is_flag(name) {
                assert(list[list.len() - 1].is_flag(name));
            }
            if has_flag(list, name) {
                let i = choose|i: int| 0 <= i < list.len() && (#[trigger] list[i]).is_flag(name);
                if i < front.len() {
                    assert(front[i].is_flag(name));
                }
            }
        }
        assert forall|key: Seq<char>| has_key(list, key) == (has_key(front, key) || last.assigns(
            key,
        )) by {
            if has_key(front, key) {
                let i = choose|i: int| 0 <= i < front.len() && (#[trigger] front[i]).assigns(key);
                assert(list[i].assigns(key));
            }
            if last.assigns(key) {
                assert(list[list.len() - 1].assigns(key));
            }
            if has_key(list, key) {
                let i = choose|i: int| 0 <= i < list.len() && (#[trigger] list[i]).assigns(key);
                if i < front.len() {
                    assert(front[i].assigns(key));
                }
            }
        }
    }
}

/// Where the last `freelist` of a list that parses is its element `i`, the
/// capacity of the pool is the expression on the right of that element,
/// whatever expression it is.
pub proof fn freelist_is_last_written(list: Seq<ArgumentView>, i: int)
    requires
        is_last(list, "freelist"@, i),
        parsed(list) is Ok,
    ensures
        parsed(list)->Ok_0.freelist == Some(list[i]->Assign_0.right),
    decreases list.len(),
{
    key_names_differ();
    let front = list.drop_last();
    if i + 1 < list.len() {
        assert(!list[list.len() - 1].assigns("freelist"@));
        assert(front[i] == list[i]);
        assert forall|k: int| i < k < front.len() implies !(#[trigger] front[k]).assigns(
            "freelist"@,
        ) by {
            assert(!list[k].assigns("freelist"@));
        }
        freelist_is_last_written(front, i);
    }
}

/// Where the last `module` of a list that parses is its element `i`, the
/// module is the string literal on the right of that element.
pub proof fn module_is_last_written(list: Seq<ArgumentView>, i: int)
    requires
        is_last(list, "module"@, i),
        parsed(list) is Ok,
    ensures
        list[i]->Assign_0.right matches ExprView::Str(lit) && parsed(list)->Ok_0.module == Some(
            lit,
        ),
    decreases list.len(),
{
    key_names_differ();
    let front = list.drop_last();
    if i + 1 < list.len() {
        assert(!list[list.len() - 1].assigns("module"@));
        assert(front[i] == list[i]);
        assert forall|k: int| i < k < front.len() implies !(#[trigger] front[k]).assigns(
            "module"@,
        ) by {
            assert(!list[k].assigns("module"@));
        }
        module_is_last_written(front, i);
    }
}

/// Where the last `name` of a list that parses is its element `i`, the
/// name is the identifier that the string literal on the right of that
/// element spells.
pub proof fn name_is_last_written(list: Seq<ArgumentView>, i: int)
    requires
        is_last(list, "name"@, i),
        parsed(list) is Ok,
    ensures
        list[i]->Assign_0.right matches ExprView::Str(lit) && ident_in(lit.value) is Some
            && parsed(list)->Ok_0.name == ident_in(lit.value),
    decreases list.len(),
{
    key_names_differ();
    let front = list.drop_last();
    if i + 1 < list.len() {
        assert(!list[list.len() - 1].assigns("name"@));
        assert(front[i] == list[i]);
        assert forall|k: int| i < k < front.len() implies !(#[trigger] front[k]).assigns(
            "name"@,
        ) by {
            assert(!list[k].assigns("name"@));
        }
        name_is_last_written(front, i);
    }
}

/// A `name` whose value is a bare identifier is not accepted, whatever the
/// record: the diagnostic asks for the identifier in double quotes.
pub proof fn unquoted_name_is_rejected(
    args: PyClassArgsView,
    assign: ExprAssignView,
    exp: ExprPathView,
)
    requires
        key_of(assign) == Some("name"@),
        assign.right == ExprView::Path(exp),
        exp.path.segments.len() == 1,
    ensures
        with_assign(args, assign) == Err::<PyClassArgsView, DiagnosticView>(
            DiagnosticView {
                span: exp.span,
                message: unquoted_name_message(exp.path.segments[0].ident),
            },
        ),
{
    key_names_differ();
}

/// Whether an element is accepted does not depend on the record, and two
/// elements that do not assign to the same key can change places: where
/// one after the other is accepted, so is the other after the one, with the
/// same record.
pub proof fn accepted_elements_commute(args: PyClassArgsView, x: ArgumentView, y: ArgumentView)
    requires
        forall|key: Seq<char>| !(x.assigns(key) && y.assigns(key)),
        with_argument(args, x) is Ok,
        with_argument(with_argument(args, x)->Ok_0, y) is Ok,
    ensures
        with_argument(args, y) is Ok,
        with_argument(with_argument(args, y)->Ok_0, x) == with_argument(
            with_argument(args, x)->Ok_0,
            y,
        ),
{
    flag_names_differ();
    key_names_differ();
    match (x, y) {
        (ArgumentView::Assign(a), ArgumentView::Assign(b)) => {
            let key = key_of(a)->Some_0;
            assert(x.assigns(key));
            assert(!y.assigns(key));
        },
        _ => {},
    }
}

/// Whether an element of the argument list is accepted: the record plays
/// no part in that.
pub open spec fn accepted(arg: ArgumentView) -> bool {
    with_argument(PyClassArgsView::default(), arg) is Ok
}

/// An element is accepted after one record where it is accepted after
/// another.
pub proof fn acceptance_ignores_record(args: PyClassArgsView, arg: ArgumentView)
    ensures
        with_argument(args, arg) is Ok <==> accepted(arg),
{
}

/// A list parses where every element of it is accepted, and only there.
pub proof fn parses_where_all_accepted(list: Seq<ArgumentView>)
    ensures
        parsed(list) is Ok <==> forall|i: int| 0 <= i < list.len() ==> accepted(#[trigger] list[i]),
    decreases list.len(),
{
    if list.len() > 0 {
        let front = list.drop_last();
        parses_where_all_accepted(front);
        assert(list.last() == list[list.len() - 1]);
        if parsed(front) is Ok {
            acceptance_ignores_record(parsed(front)->Ok_0, list.last());
        }
        if forall|i: int| 0 <= i < list.len() ==> accepted(#[trigger] list[i]) {
            assert forall|i: int| 0 <= i < front.len() implies accepted(#[trigger] front[i]) by {
                assert(front[i] == list[i]);
            }
        }
        if parsed(list) is Ok {
            assert forall|i: int| 0 <= i < list.len() implies accepted(#[trigger] list[i]) by {
                if i < front.len() {
                    assert(front[i] == list[i]);
                }
            }
        }
    }
}

/// The flags of a list do not depend on the order of its elements: two
/// lists with the same elements have the same flags.
pub proof fn flags_ignore_order(a: Seq<ArgumentView>, b: Seq<ArgumentView>)
    requires
        forall|arg: ArgumentView| a.contains(arg) <==> b.contains(arg),
    ensures
        flags_of(a) == flags_of(b),
{
    assert forall|name: Seq<char>| has_flag(a, name) == has_flag(b, name) by {
        if has_flag(a, name) {
            let i = choose|i: int| 0 <= i < a.len() && (#[trigger] a[i]).is_flag(name);
            assert(a.contains(a[i]));
            let k = choose|k: int| 0 <= k < b.len() && b[k] == a[i];
            assert(b[k].is_flag(name));
        }
        if has_flag(b, name) {
            let i = choose|i: int| 0 <= i < b.len() && (#[trigger] b[i]).is_flag(name);
            assert(b.contains(b[i]));
            let k = choose|k: int| 0 <= k < a.len() && a[k] == b[i];
            assert(a[k].is_flag(name));
        }
    }
}

/// At most one element of the list assigns to each key.
pub open spec fn keys_once(list: Seq<ArgumentView>) -> bool {
    forall|i: int, j: int, key: Seq<char>|
        0 <= i < j < list.len() ==> !(#[trigger] list[i].assigns(key) && #[trigger] list[j].assigns(
            key,
        ))
}

/// In a list that assigns to each key at most once, an element that
/// assigns to a key is the last that does.
proof fn lemma_only_is_last(list: Seq<ArgumentView>, key: Seq<char>, i: int)
    requires
        keys_once(list),
        0 <= i < list.len(),
        list[i].assigns(key),
    ensures
        is_last(list, key, i),
{
    assert forall|j: int| i < j < list.len() implies !(#[trigger] list[j]).assigns(key) by {
        if list[j].assigns(key) {
            assert(list[i].assigns(key) && list[j].assigns(key));
        }
    }
}

/// The element of `b` that is the element `i` of `a` which assigns to
/// `key`, where the two lists have the same elements and `b` assigns to
/// each key at most once: it is the last that assigns to the key in `b`.
proof fn lemma_same_assignment(a: Seq<ArgumentView>, b: Seq<ArgumentView>, key: Seq<char>, i: int)
    -> (k: int)
    requires
        forall|arg: ArgumentView| a.contains(arg) <==> b.contains(arg),
        keys_once(b),
        0 <= i < a.len(),
        a[i].assigns(key),
    ensures
        is_last(b, key, k),
        b[k] == a[i],
{
    assert(a.contains(a[i]));
    let k = choose|k: int| 0 <= k < b.len() && b[k] == a[i];
    lemma_only_is_last(b, key, k);
    k
}

/// Parsing does not depend on the order of the elements: two lists with
/// the same elements, in each of which no key is assigned twice, parse to
/// the same record.
pub proof fn parse_ignores_order(a: Seq<ArgumentView>, b: Seq<ArgumentView>)
    requires
        forall|arg: ArgumentView| a.contains(arg) <==> b.contains(arg),
        keys_once(a),
        keys_once(b),
        parsed(a) is Ok,
    ensures
        parsed(b) == parsed(a),
{
    parses_where_all_accepted(a);
    parses_where_all_accepted(b);
    assert forall|i: int| 0 <= i < b.len() implies accepted(#[trigger] b[i]) by {
        assert(b.contains(b[i]));
        let k = choose|k: int| 0 <= k < a.len() && a[k] == b[i];
        assert(accepted(a[k]));
    }
    let ra = parsed(a)->Ok_0;
    let rb = parsed(b)->Ok_0;
    record_reflects_list(a);
    record_reflects_list(b);
    flags_ignore_order(a, b);
    assert forall|key: Seq<char>| has_key(a, key) == has_key(b, key) by {
        if has_key(a, key) {
            let i = choose|i: int| 0 <= i < a.len() && (#[trigger] a[i]).assigns(key);
            assert(a.contains(a[i]));
            let k = choose|k: int| 0 <= k < b.len() && b[k] == a[i];
            assert(b[k].assigns(key));
        }
        if has_key(b, key) {
            let i = choose|i: int| 0 <= i < b.len() && (#[trigger] b[i]).assigns(key);
            assert(b.contains(b[i]));
            let k = choose|k: int| 0 <= k < a.len() && a[k] == b[i];
            assert(a[k].assigns(key));
        }
    }
    assert(ra.freelist == rb.freelist) by {
        let key = "freelist"@;
        if has_key(a, key) {
            let i = choose|i: int| 0 <= i < a.len() && (#[trigger] a[i]).assigns(key);
            let ia = i;
            lemma_only_is_last(a, key, ia);
            let ib = lemma_same_assignment(a, b, key, ia);
            freelist_is_last_written(a, ia);
            freelist_is_last_written(b, ib);
        }
    }
    assert(ra.name == rb.name) by {
        let key = "name"@;
        if has_key(a, key) {
            let i = choose|i: int| 0 <= i < a.len() && (#[trigger] a[i]).assigns(key);
            let ia = i;
            lemma_only_is_last(a, key, ia);
            let ib = lemma_same_assignment(a, b, key, ia);
            name_is_last_written(a, ia);
            name_is_last_written(b, ib);
        }
    }
    assert(ra.module == rb.module) by {
        let key = "module"@;
        if has_key(a, key) {
            let i = choose|i: int| 0 <= i < a.len() && (#[trigger] a[i]).assigns(key);
            let ia = i;
            lemma_only_is_last(a, key, ia);
            let ib = lemma_same_assignment(a, b, key, ia);
            module_is_last_written(a, ia);
            module_is_last_written(b, ib);
        }
    }
    assert(ra.base == rb.base) by {
        let key = "extends"@;
        if has_key(a, key) {
            let i = choose|i: int| 0 <= i < a.len() && (#[trigger] a[i]).assigns(key);
            let ia = i;
            lemma_only_is_last(a, key, ia);
            let ib = lemma_same_assignment(a, b, key, ia);
            extends_sets_base(a, ia);
            extends_sets_base(b, ib);
        } else {
            without_extends_base_is_root(a);
            without_extends_base_is_root(b);
        }
    }
}

} // verus!
