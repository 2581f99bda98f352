//! What holds of the contract as a whole.

use vstd::prelude::*;
use crate::contract::IssueView;
use crate::description::{
    DeclaredView, description_of, item_declared, method_declared, methods, methods_declared,
    paths_declared,
};
use crate::json::{Json, json_well_formed, keys_unique, lookup, member, member_of, text_of};
use crate::openapi::{
    dangling_issue, defines_operation, elements_ref_issues, identifies, members_ref_issues,
    names_openapi, operation_id_at, own_ref_issues, parsed_issues, ref_issues,
};
use crate::operation::{OperationView, parse_operation, reference_text};
use crate::text::{
    ascii_lower, ascii_upper, ends_with, index_of, is_white, starts_with, lemma_index_of, lower_char, trim, trim_end,
    trim_start, upper_char,
};

verus! {

/// Binding a contract to an operation adds to a bare validation at most the
/// one issue that the operation is not defined: the bare issues come first,
/// unchanged, and the bound contract holds exactly when the bare one does
/// and the document defines the operation.
pub proof fn binding_adds_only_the_operation(
    operation: OperationView,
    parsed: Result<Json, Seq<char>>,
)
    ensures
        parsed_issues(Some(operation), parsed).len() <= parsed_issues(None, parsed).len() + 1,
        parsed_issues(Some(operation), parsed).take(parsed_issues(None, parsed).len() as int)
            == parsed_issues(None, parsed),
        parsed_issues(Some(operation), parsed).len() == 0 <==> (parsed_issues(None, parsed).len()
            == 0 && (parsed matches Ok(document) && defines_operation(document, operation))),
{
    match parsed {
        Ok(document) => {
            let bare = parsed_issues(None, parsed);
            let bound = parsed_issues(Some(operation), parsed);
            assert(bare =~= bare + Seq::<IssueView>::empty());
            assert(bound.take(bare.len() as int) =~= bare);
        },
        Err(_) => {},
    }
}

/// Whether the declared operation `d` is `operation`: the same method and
/// template, or the same `operationId`.
pub open spec fn declares(d: DeclaredView, operation: OperationView) -> bool {
    match operation {
        OperationView::Route { method, path } => d.method == method && d.template == path,
        OperationView::Id(id) => d.operation_id == Some(id),
    }
}

/// `lookup` gives the value of the first entry with the key.
proof fn lemma_lookup(entries: Seq<(String, Json)>, key: Seq<char>)
    ensures
        match lookup(entries, key) {
            Some(v) => exists|i: int|
                0 <= i < entries.len() && #[trigger] entries[i].0@ == key && entries[i].1 == v
                    && forall|j: int| 0 <= j < i ==> entries[j].0@ != key,
            None => forall|i: int| 0 <= i < entries.len() ==> #[trigger] entries[i].0@ != key,
        },
    decreases entries.len(),
{
    if entries.len() > 0 && entries[0].0@ != key {
        let rest = entries.drop_first();
        lemma_lookup(rest, key);
        match lookup(rest, key) {
            Some(v) => {
                let i = choose|i: int|
                    0 <= i < rest.len() && #[trigger] rest[i].0@ == key && rest[i].1 == v
                        && forall|j: int| 0 <= j < i ==> rest[j].0@ != key;
                assert(entries[i + 1] == rest[i]);
                assert forall|j: int| 0 <= j < i + 1 implies entries[j].0@ != key by {
                    if j > 0 {
                        assert(entries[j] == rest[j - 1]);
                    }
                }
                assert(entries[i + 1].0@ == key);
            },
            None => {
                assert forall|i: int| 0 <= i < entries.len() implies #[trigger] entries[i].0@
                    != key by {
                    if i > 0 {
                        assert(entries[i] == rest[i - 1]);
                    }
                }
            },
        }
    }
}

/// Among entries with unique keys, `lookup` finds the entry with the key.
proof fn lemma_lookup_unique(entries: Seq<(String, Json)>, i: int)
    requires
        keys_unique(entries),
        0 <= i < entries.len(),
    ensures
        lookup(entries, entries[i].0@) == Some(entries[i].1),
{
    lemma_lookup(entries, entries[i].0@);
}

/// A member of a well-formed object is well-formed.
proof fn lemma_member_well_formed(value: Json, key: Seq<char>)
    requires
        json_well_formed(value),
    ensures
        member(value, key) matches Some(m) ==> json_well_formed(m),
{
    if let Json::Object(entries) = value {
        lemma_lookup(entries@, key);
        if let Some(m) = lookup(entries@, key) {
            let i = choose|i: int|
                0 <= i < entries@.len() && #[trigger] entries@[i].0@ == key && entries@[i].1 == m
                    && forall|j: int| 0 <= j < i ==> entries@[j].0@ != key;
            assert(json_well_formed(entries@[i].1));
        }
    }
}

/// What `methods_declared` holds: the operations of the first `n` methods.
proof fn lemma_methods_declared(template: Seq<char>, item: Seq<(String, Json)>, n: int, x: DeclaredView)
    requires
        0 <= n <= 8,
    ensures
        methods_declared(template, item, n).contains(x) <==> exists|k: int|
            0 <= k < n && #[trigger] method_declared(template, item, k).contains(x),
    decreases n,
{
    if n > 0 {
        lemma_methods_declared(template, item, n - 1, x);
        let a = methods_declared(template, item, n - 1);
        let b = method_declared(template, item, n - 1);
        let ab = methods_declared(template, item, n);
        assert(ab == a + b);
        if ab.contains(x) {
            let j = choose|j: int| 0 <= j < ab.len() && ab[j] == x;
            if j < a.len() {
                assert(a[j] == x);
                assert(a.contains(x));
            } else {
                assert(b[j - a.len()] == x);
                assert(b.contains(x));
            }
        }
        if exists|k: int| 0 <= k < n && #[trigger] method_declared(template, item, k).contains(x) {
            let k = choose|k: int| 0 <= k < n && #[trigger] method_declared(template, item, k).contains(x);
            if k < n - 1 {
                assert(a.contains(x));
                let j = choose|j: int| 0 <= j < a.len() && a[j] == x;
                assert(ab[j] == x);
            } else {
                let j = choose|j: int| 0 <= j < b.len() && b[j] == x;
                assert(ab[a.len() + j] == x);
            }
        }
    }
}

/// What `paths_declared` holds: the operations of every path item.
proof fn lemma_paths_declared(paths: Seq<(String, Json)>, x: DeclaredView)
    ensures
        paths_declared(paths).contains(x) <==> exists|i: int|
            0 <= i < paths.len() && #[trigger] item_declared(paths[i].0@, paths[i].1).contains(x),
    decreases paths.len(),
{
    if paths.len() > 0 {
        let front = paths.drop_last();
        lemma_paths_declared(front, x);
        let a = paths_declared(front);
        let b = item_declared(paths.last().0@, paths.last().1);
        let ab = paths_declared(paths);
        assert(ab == a + b);
        if ab.contains(x) {
            let j = choose|j: int| 0 <= j < ab.len() && ab[j] == x;
            if j < a.len() {
                assert(a[j] == x);
                assert(a.contains(x));
                let i = choose|i: int|
                    0 <= i < front.len() && #[trigger] item_declared(front[i].0@, front[i].1).contains(x);
                assert(front[i] == paths[i]);
            } else {
                assert(b[j - a.len()] == x);
                assert(b.contains(x));
                assert(item_declared(paths[paths.len() - 1].0@, paths[paths.len() - 1].1).contains(x));
            }
        }
        if exists|i: int| 0 <= i < paths.len() && #[trigger] item_declared(paths[i].0@, paths[i].1).contains(x) {
            let i = choose|i: int| 0 <= i < paths.len() && #[trigger] item_declared(paths[i].0@, paths[i].1).contains(x);
            if i < paths.len() - 1 {
                assert(front[i] == paths[i]);
                assert(item_declared(front[i].0@, front[i].1).contains(x));
                assert(a.contains(x));
                let j = choose|j: int| 0 <= j < a.len() && a[j] == x;
                assert(ab[j] == x);
            } else {
                let j = choose|j: int| 0 <= j < b.len() && b[j] == x;
                assert(ab[a.len() + j] == x);
            }
        }
    }
}

/// What `method_declared` holds: the operation of the method at `k`, when
/// the item has it.
proof fn lemma_method_declared(template: Seq<char>, item: Seq<(String, Json)>, k: int, x: DeclaredView)
    requires
        method_declared(template, item, k).contains(x),
    ensures
        lookup(item, methods()[k]) is Some,
        x.method == methods()[k],
        x.template == template,
        x.operation_id == text_of(member_of(lookup(item, methods()[k]), "operationId"@)),
{
    let j = choose|j: int|
        0 <= j < method_declared(template, item, k).len() && method_declared(template, item, k)[j]
            == x;
}

/// Every operation that a description declares is one the contract finds
/// defined: by its method and template, and by its `operationId` when it
/// has one, in every document whose objects name no key twice, as every
/// parsed document's do.
pub proof fn declared_operations_are_defined(document: Json, j: int)
    requires
        json_well_formed(document),
        0 <= j < description_of(document).operations.len(),
    ensures
        defines_operation(
            document,
            OperationView::Route {
                method: description_of(document).operations[j].method,
                path: description_of(document).operations[j].template,
            },
        ),
        description_of(document).operations[j].operation_id matches Some(id) ==> defines_operation(
            document,
            OperationView::Id(id),
        ),
{
    let d = description_of(document).operations[j];
    assert(description_of(document).operations.contains(d));
    if let Some(Json::Object(paths)) = member(document, "paths"@) {
        lemma_member_well_formed(document, "paths"@);
        lemma_paths_declared(paths@, d);
        let i = choose|i: int|
            0 <= i < paths@.len() && #[trigger] item_declared(paths@[i].0@, paths@[i].1).contains(d);
        let template = paths@[i].0@;
        if let Json::Object(entries) = paths@[i].1 {
            lemma_methods_declared(template, entries@, 8, d);
            let k = choose|k: int| 0 <= k < 8 && #[trigger] method_declared(template, entries@, k).contains(d);
            lemma_method_declared(template, entries@, k, d);
            lemma_lookup_unique(paths@, i);
            if let Some(id) = d.operation_id {
                assert(operation_id_at(paths@[i].1, k) == Some(id));
            }
        }
    }
}

/// Every operation the contract finds defined is one a description
/// declares: a route whose method is one of `METHODS` by its method and
/// template, an operation id by its `operationId`.
pub proof fn defined_operations_are_declared(document: Json, operation: OperationView)
    requires
        defines_operation(document, operation),
        operation matches OperationView::Route { method, .. } ==> methods().contains(method),
    ensures
        exists|j: int|
            0 <= j < description_of(document).operations.len() && declares(
                #[trigger] description_of(document).operations[j],
                operation,
            ),
{
    if let Some(Json::Object(paths)) = member(document, "paths"@) {
        let (i, k) = match operation {
            OperationView::Route { method, path } => {
                lemma_lookup(paths@, path);
                let i = choose|i: int|
                    0 <= i < paths@.len() && #[trigger] paths@[i].0@ == path && paths@[i].1 == lookup(
                        paths@,
                        path,
                    )->0 && forall|j: int| 0 <= j < i ==> paths@[j].0@ != path;
                let k = choose|k: int| 0 <= k < methods().len() && methods()[k] == method;
                (i, k)
            },
            OperationView::Id(id) => {
                choose|i: int, k: int|
                    0 <= i < paths@.len() && 0 <= k < 8 && #[trigger] operation_id_at(paths@[i].1, k)
                        == Some(id)
            },
        };
        let template = paths@[i].0@;
        if let Json::Object(entries) = paths@[i].1 {
            let op = lookup(entries@, methods()[k])->0;
            let d = DeclaredView {
                method: methods()[k],
                template,
                operation_id: text_of(member(op, "operationId"@)),
            };
            assert(method_declared(template, entries@, k)[0] == d);
            assert(method_declared(template, entries@, k).contains(d));
            lemma_methods_declared(template, entries@, 8, d);
            assert(item_declared(paths@[i].0@, paths@[i].1).contains(d));
            lemma_paths_declared(paths@, d);
            let ops = description_of(document).operations;
            assert(ops.contains(d));
            let j = choose|j: int| 0 <= j < ops.len() && ops[j] == d;
            assert(declares(ops[j], operation));
        }
    }
}

/// `trim_start` gives a suffix that is empty or begins with no white
/// space.
proof fn lemma_trim_start(s: Seq<char>)
    ensures
        trim_start(s).len() <= s.len(),
        trim_start(s) == s.skip(s.len() - trim_start(s).len()),
        trim_start(s).len() > 0 ==> !is_white(trim_start(s)[0]),
    decreases s.len(),
{
    if s.len() > 0 && is_white(s[0]) {
        lemma_trim_start(s.drop_first());
        assert(s.drop_first().skip(s.len() - 1 - trim_start(s).len()) =~= s.skip(
            s.len() - trim_start(s).len(),
        ));
    } else {
        assert(s.skip(0) =~= s);
    }
}

/// `trim_end` gives a prefix that is empty or ends with no white space.
proof fn lemma_trim_end(s: Seq<char>)
    ensures
        trim_end(s).len() <= s.len(),
        trim_end(s) == s.take(trim_end(s).len() as int),
        trim_end(s).len() > 0 ==> !is_white(trim_end(s).last()),
    decreases s.len(),
{
    if s.len() > 0 && is_white(s.last()) {
        lemma_trim_end(s.drop_last());
        assert(s.drop_last().take(trim_end(s).len() as int) =~= s.take(trim_end(s).len() as int));
    } else {
        assert(s.take(s.len() as int) =~= s);
    }
}

/// What is trimmed begins and ends with no white space.
proof fn lemma_trim_ends(s: Seq<char>)
    ensures
        trim(s).len() > 0 ==> !is_white(trim(s)[0]) && !is_white(trim(s).last()),
{
    lemma_trim_start(s);
    lemma_trim_end(trim_start(s));
    if trim(s).len() > 0 {
        assert(trim(s)[0] == trim_start(s)[0]);
    }
}

/// Text that begins and ends with no white space is its own trim.
pub(crate) proof fn lemma_trim_fixed(s: Seq<char>)
    requires
        s.len() > 0 ==> !is_white(s[0]) && !is_white(s.last()),
    ensures
        trim(s) == s,
{
}

/// Changing the case of an ASCII letter gives no white space and no space
/// from what is neither, and lower-case is the same after an upper-case
/// round.
proof fn lemma_case(c: char)
    ensures
        is_white(upper_char(lower_char(c))) == is_white(c),
        (upper_char(lower_char(c)) == ' ') == (c == ' '),
        lower_char(upper_char(lower_char(c))) == lower_char(c),
{
    if 'A' <= c && c <= 'Z' {
        assert((c as u8) + 32 <= 'z' as u8);
        assert('a' <= ((c as u8) + 32) as char && ((c as u8) + 32) as char <= 'z');
        assert(upper_char(lower_char(c)) == c);
    } else if 'a' <= c && c <= 'z' {
        assert('A' <= ((c as u8) - 32) as char && ((c as u8) - 32) as char <= 'Z');
        assert(((((c as u8) - 32) as char) as u8) + 32 == c as u8);
    }
}

/// A reference that names an operation names it again once written back
/// by `Operation::reference`: parsing undoes writing.
pub proof fn reference_round_trip(reference: Seq<char>, operation: OperationView)
    requires
        parse_operation(reference) == Ok::<OperationView, Seq<char>>(operation),
    ensures
        parse_operation(reference_text(operation)) == Ok::<OperationView, Seq<char>>(operation),
{
    let r = trim(reference);
    lemma_trim_ends(reference);
    lemma_index_of(r, ' ');
    match index_of(r, ' ') {
        Some(i) => {
            let m = r.take(i);
            let p = trim(r.skip(i + 1));
            lemma_trim_ends(r.skip(i + 1));
            let u = ascii_upper(ascii_lower(m));
            reveal_strlit(" ");
            let t = u + " "@ + p;
            assert(t == reference_text(operation));
            assert(i > 0);
            lemma_case(m[0]);
            assert(t[0] == u[0]);
            assert(t.last() == p.last());
            lemma_trim_fixed(t);
            assert forall|j: int| 0 <= j < i implies t[j] != ' ' by {
                lemma_case(m[j]);
            }
            assert(t[i] == ' ');
            lemma_index_of(t, ' ');
            assert(t.skip(i + 1) =~= p);
            lemma_trim_ends(p);
            lemma_trim_fixed(p);
            assert forall|j: int| 0 <= j < i implies ascii_lower(t.take(i))[j] == ascii_lower(m)[j] by {
                lemma_case(m[j]);
            }
            assert(ascii_lower(t.take(i)) =~= ascii_lower(m));
        },
        None => {
            lemma_trim_fixed(r);
        },
    }
}

/// A stream whose media type names an `OpenAPI` description is taken for
/// one, whatever its bytes hold.
pub proof fn named_media_type_suffices(media_type: Seq<char>, bytes: Seq<u8>)
    requires
        names_openapi(media_type),
    ensures
        identifies(Some(media_type), bytes),
{
}

/// In a document whose objects name no key twice (every parsed document),
/// the contract finds an operation defined exactly when a description of it
/// declares that operation: a route whose method is one of `METHODS` by its
/// method and template, an operation id by its `operationId`.
pub proof fn defined_exactly_when_declared(document: Json, operation: OperationView)
    requires
        json_well_formed(document),
        operation matches OperationView::Route { method, .. } ==> methods().contains(method),
    ensures
        defines_operation(document, operation) <==> exists|j: int|
            0 <= j < description_of(document).operations.len() && declares(
                #[trigger] description_of(document).operations[j],
                operation,
            ),
{
    if defines_operation(document, operation) {
        defined_operations_are_declared(document, operation);
    }
    if exists|j: int|
        0 <= j < description_of(document).operations.len() && declares(
            #[trigger] description_of(document).operations[j],
            operation,
        ) {
        let j = choose|j: int|
            0 <= j < description_of(document).operations.len() && declares(
                #[trigger] description_of(document).operations[j],
                operation,
            );
        declared_operations_are_defined(document, j);
    }
}

/// Whether `i` reports a `$ref` that does not land: its code is
/// `reference` and its message reads `$ref #… does not land`.
pub open spec fn reports_dangling_ref(i: IssueView) -> bool {
    &&& i.code == "reference"@
    &&& starts_with(i.message, "$ref #"@)
    &&& ends_with(i.message, " does not land"@)
}

/// Whether every issue of `issues` reports a `$ref` that does not land.
pub open spec fn all_dangling(issues: Seq<IssueView>) -> bool {
    forall|k: int| 0 <= k < issues.len() ==> reports_dangling_ref(#[trigger] issues[k])
}

proof fn lemma_all_dangling_concat(a: Seq<IssueView>, b: Seq<IssueView>)
    requires
        all_dangling(a),
        all_dangling(b),
    ensures
        all_dangling(a + b),
{
    assert forall|k: int| 0 <= k < (a + b).len() implies reports_dangling_ref(#[trigger] (a + b)[k]) by {
        if k < a.len() {
            assert((a + b)[k] == a[k]);
        } else {
            assert((a + b)[k] == b[k - a.len()]);
        }
    }
}

proof fn lemma_own_ref_dangling(root: Json, entries: Seq<(String, Json)>, path: Seq<char>)
    ensures
        all_dangling(own_ref_issues(root, entries, path)),
{
    if let Some(Json::Str(target)) = lookup(entries, "$ref"@) {
        if target@.len() > 0 && target@[0] == '#' {
            let i = dangling_issue(target@, path);
            reveal_strlit("$ref ");
            reveal_strlit("$ref #");
            assert(i.message == "$ref "@ + target@ + " does not land"@);
            assert(i.message.take(6) =~= "$ref #"@);
            assert(i.message.skip(i.message.len() - " does not land"@.len()) =~= " does not land"@);
            assert(reports_dangling_ref(i));
        }
    }
}

proof fn lemma_ref_dangling(root: Json, value: Json, path: Seq<char>)
    ensures
        all_dangling(ref_issues(root, value, path)),
    decreases value, 1int, 0int,
{
    match value {
        Json::Object(entries) => {
            lemma_own_ref_dangling(root, entries@, path);
            lemma_members_dangling(root, value, path, entries@.len() as int);
            lemma_all_dangling_concat(
                own_ref_issues(root, entries@, path),
                members_ref_issues(root, value, path, entries@.len() as int),
            );
        },
        Json::Array(items) => {
            lemma_elements_dangling(root, value, path, items@.len() as int);
        },
        _ => {},
    }
}

proof fn lemma_members_dangling(root: Json, parent: Json, path: Seq<char>, n: int)
    ensures
        all_dangling(members_ref_issues(root, parent, path, n)),
    decreases parent, 0int, n,
{
    if let Json::Object(entries) = parent {
        if 0 < n <= entries@.len() {
            lemma_members_dangling(root, parent, path, n - 1);
            let child_path = path + "."@ + entries@[n - 1].0@;
            lemma_ref_dangling(root, entries@[n - 1].1, child_path);
            lemma_all_dangling_concat(
                members_ref_issues(root, parent, path, n - 1),
                ref_issues(root, entries@[n - 1].1, child_path),
            );
        }
    }
}

proof fn lemma_elements_dangling(root: Json, parent: Json, path: Seq<char>, n: int)
    ensures
        all_dangling(elements_ref_issues(root, parent, path, n)),
    decreases parent, 0int, n,
{
    if let Json::Array(items) = parent {
        if 0 < n <= items@.len() {
            lemma_elements_dangling(root, parent, path, n - 1);
            let child_path = path + "["@ + crate::text::decimal((n - 1) as nat) + "]"@;
            lemma_ref_dangling(root, items@[n - 1], child_path);
            lemma_all_dangling_concat(
                elements_ref_issues(root, parent, path, n - 1),
                ref_issues(root, items@[n - 1], child_path),
            );
        }
    }
}

/// Every issue that `references` finds under a value is a `reference` issue
/// whose message reads `$ref #… does not land`: it appends nothing else.
pub proof fn references_report_only_dangling_refs(root: Json, value: Json, path: Seq<char>)
    ensures
        forall|k: int|
            0 <= k < ref_issues(root, value, path).len() ==> reports_dangling_ref(
                #[trigger] ref_issues(root, value, path)[k],
            ),
{
    lemma_ref_dangling(root, value, path);
}

} // verus!
