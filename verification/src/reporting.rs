//! What the contract reports, identifies, parses and reads, stated over
//! the document itself: which issues a document must get, which streams
//! are taken for descriptions, what a reference binds, what a title is.

use vstd::prelude::*;
use crate::contract::{IssueView, issue_of};
use crate::description::{description_of, methods};
use crate::json::{Json, json_pointer, lookup, member, text_of};
use crate::openapi::{
    elements_ref_issues, identifies, members_ref_issues, names_openapi, operation_issues,
    operations_issues, path_item_issues, paths_issues, ref_issues, soundness_issues,
};
use crate::operation::{OperationView, parse_operation};
use crate::text::{
    ascii_lower, contains_text, decimal, is_white, lemma_index_of, starts_with, trim_start_dots,
};

verus! {

/// `x` is in `a + b` when it is in `a` or in `b`.
proof fn lemma_contains_concat<A>(a: Seq<A>, b: Seq<A>, x: A)
    ensures
        a.contains(x) ==> (a + b).contains(x),
        b.contains(x) ==> (a + b).contains(x),
{
    if a.contains(x) {
        let j = choose|j: int| 0 <= j < a.len() && a[j] == x;
        assert((a + b)[j] == x);
    }
    if b.contains(x) {
        let j = choose|j: int| 0 <= j < b.len() && b[j] == x;
        assert((a + b)[a.len() + j] == x);
    }
}

/// The version a document declares, as text: `openapi`, or `swagger` when
/// it has no `openapi`; empty when that is no string.
pub open spec fn version_declared(document: Json) -> Seq<char> {
    let declared = match member(document, "openapi"@) {
        Some(v) => Some(v),
        None => member(document, "swagger"@),
    };
    match text_of(declared) {
        Some(v) => v,
        None => Seq::empty(),
    }
}

proof fn lemma_operations_issues_contain(
    template: Seq<char>,
    item: Seq<(String, Json)>,
    required: bool,
    n: int,
    k: int,
    x: IssueView,
)
    requires
        0 <= k < n,
        operation_issues(template, item, required, k).contains(x),
    ensures
        operations_issues(template, item, required, n).contains(x),
    decreases n,
{
    if k < n - 1 {
        lemma_operations_issues_contain(template, item, required, n - 1, k, x);
    }
    lemma_contains_concat(
        operations_issues(template, item, required, n - 1),
        operation_issues(template, item, required, n - 1),
        x,
    );
}

proof fn lemma_paths_issues_contain(paths: Seq<(String, Json)>, required: bool, i: int, x: IssueView)
    requires
        0 <= i < paths.len(),
        path_item_issues(paths[i].0@, paths[i].1, required).contains(x),
    ensures
        paths_issues(paths, required).contains(x),
    decreases paths.len(),
{
    let front = paths.drop_last();
    if i < paths.len() - 1 {
        assert(front[i] == paths[i]);
        lemma_paths_issues_contain(front, required, i, x);
    }
    lemma_contains_concat(
        paths_issues(front, required),
        path_item_issues(paths.last().0@, paths.last().1, required),
        x,
    );
}

/// Unless a description declares a version that begins with `3.1`, every
/// operation of one of `METHODS` under a path item that is an object, and
/// whose `responses` is not an object, is reported: `an operation without
/// responses`, at `paths.<template>.<method>`. Swagger 2.0 and 3.0 both
/// require `responses`.
pub proof fn operations_without_responses_are_reported(
    document: Json,
    paths: Vec<(String, Json)>,
    i: int,
    item: Vec<(String, Json)>,
    k: int,
    operation: Json,
)
    requires
        document is Object,
        !starts_with(version_declared(document), "3.1"@),
        member(document, "paths"@) == Some(Json::Object(paths)),
        0 <= i < paths@.len(),
        paths@[i].1 == Json::Object(item),
        0 <= k < 8,
        lookup(item@, methods()[k]) == Some(operation),
        !(member(operation, "responses"@) matches Some(Json::Object(_))),
    ensures
        soundness_issues(document).contains(
            issue_of(
                "structure"@,
                "an operation without responses"@,
                Some("paths."@ + paths@[i].0@ + "."@ + methods()[k]),
            ),
        ),
{
    let x = issue_of(
        "structure"@,
        "an operation without responses"@,
        Some("paths."@ + paths@[i].0@ + "."@ + methods()[k]),
    );
    if let Json::Object(entries) = document {
        let version = crate::openapi::declared_version(entries@);
        let required = crate::openapi::responses_required(version);
        let template = paths@[i].0@;
        assert(operation_issues(template, item@, required, k) == seq![x]);
        assert(operation_issues(template, item@, required, k)[0] == x);
        lemma_operations_issues_contain(template, item@, required, 8, k, x);
        lemma_contains_concat(
            crate::openapi::template_issues(template),
            operations_issues(template, item@, required, 8),
            x,
        );
        lemma_paths_issues_contain(paths@, required, i, x);
        let a = crate::openapi::version_issues(version) + crate::openapi::info_issues(
            entries@,
            "title"@,
        ) + crate::openapi::info_issues(entries@, "version"@);
        let b = crate::openapi::paths_section_issues(entries@, required);
        let c = ref_issues(document, document, Seq::empty());
        lemma_contains_concat(a, b, x);
        lemma_contains_concat(a + b, c, x);
    }
}

/// The value reached from `value`, which stands at `path`, by `steps`: each
/// step the position of a member of an object or of an element of an array;
/// with the path of what is reached, `.key` for a member and `[i]` for an
/// element.
pub open spec fn descend(value: Json, path: Seq<char>, steps: Seq<int>) -> Option<(Json, Seq<char>)>
    decreases steps.len(),
{
    if steps.len() == 0 {
        Some((value, path))
    } else {
        let k = steps[0];
        match value {
            Json::Object(entries) => if 0 <= k < entries@.len() {
                descend(entries@[k].1, path + "."@ + entries@[k].0@, steps.drop_first())
            } else {
                None
            },
            Json::Array(items) => if 0 <= k < items@.len() {
                descend(items@[k], path + "["@ + decimal(k as nat) + "]"@, steps.drop_first())
            } else {
                None
            },
            _ => None,
        }
    }
}

/// The `$ref` of `value` that does not land in `root`: a string member
/// `$ref` of an object that begins with `#`, where what follows names
/// nothing in `root` as a JSON Pointer.
pub open spec fn dangling_target(root: Json, value: Json) -> Option<Seq<char>> {
    match member(value, "$ref"@) {
        Some(Json::Str(t)) => if t@.len() > 0 && t@[0] == '#' && json_pointer(
            root,
            t@.drop_first(),
        ) is None {
            Some(t@)
        } else {
            None
        },
        _ => None,
    }
}

proof fn lemma_members_contain(root: Json, parent: Json, path: Seq<char>, n: int, k: int, x: IssueView)
    requires
        parent matches Json::Object(entries) && 0 <= k < n <= entries@.len() && ref_issues(
            root,
            entries@[k].1,
            path + "."@ + entries@[k].0@,
        ).contains(x),
    ensures
        members_ref_issues(root, parent, path, n).contains(x),
    decreases n,
{
    if let Json::Object(entries) = parent {
        if k < n - 1 {
            lemma_members_contain(root, parent, path, n - 1, k, x);
        }
        lemma_contains_concat(
            members_ref_issues(root, parent, path, n - 1),
            ref_issues(root, entries@[n - 1].1, path + "."@ + entries@[n - 1].0@),
            x,
        );
    }
}

proof fn lemma_elements_contain(root: Json, parent: Json, path: Seq<char>, n: int, k: int, x: IssueView)
    requires
        parent matches Json::Array(items) && 0 <= k < n <= items@.len() && ref_issues(
            root,
            items@[k],
            path + "["@ + decimal(k as nat) + "]"@,
        ).contains(x),
    ensures
        elements_ref_issues(root, parent, path, n).contains(x),
    decreases n,
{
    if let Json::Array(items) = parent {
        if k < n - 1 {
            lemma_elements_contain(root, parent, path, n - 1, k, x);
        }
        lemma_contains_concat(
            elements_ref_issues(root, parent, path, n - 1),
            ref_issues(root, items@[n - 1], path + "["@ + decimal((n - 1) as nat) + "]"@),
            x,
        );
    }
}

/// Every `$ref` under `value` that does not land is reported: whatever
/// member or element, at whatever depth, holds it, `references` appends
/// `$ref <target> does not land` at its path.
pub proof fn every_dangling_ref_is_reported(
    root: Json,
    value: Json,
    path: Seq<char>,
    steps: Seq<int>,
    reached: Json,
    at: Seq<char>,
    target: Seq<char>,
)
    requires
        descend(value, path, steps) == Some((reached, at)),
        dangling_target(root, reached) == Some(target),
    ensures
        ref_issues(root, value, path).contains(
            issue_of("reference"@, "$ref "@ + target + " does not land"@, Some(trim_start_dots(at))),
        ),
    decreases steps.len(),
{
    let x = issue_of("reference"@, "$ref "@ + target + " does not land"@, Some(trim_start_dots(at)));
    if steps.len() == 0 {
        if let Json::Object(entries) = value {
            let own = crate::openapi::own_ref_issues(root, entries@, path);
            assert(own[0] == x);
            assert(own.contains(x));
            lemma_contains_concat(
                own,
                members_ref_issues(root, value, path, entries@.len() as int),
                x,
            );
        }
    } else {
        let k = steps[0];
        match value {
            Json::Object(entries) => {
                let child_path = path + "."@ + entries@[k].0@;
                every_dangling_ref_is_reported(
                    root,
                    entries@[k].1,
                    child_path,
                    steps.drop_first(),
                    reached,
                    at,
                    target,
                );
                lemma_members_contain(root, value, path, entries@.len() as int, k, x);
                lemma_contains_concat(
                    crate::openapi::own_ref_issues(root, entries@, path),
                    members_ref_issues(root, value, path, entries@.len() as int),
                    x,
                );
            },
            Json::Array(items) => {
                let child_path = path + "["@ + decimal(k as nat) + "]"@;
                every_dangling_ref_is_reported(
                    root,
                    items@[k],
                    child_path,
                    steps.drop_first(),
                    reached,
                    at,
                    target,
                );
                lemma_elements_contain(root, value, path, items@.len() as int, k, x);
            },
            _ => {},
        }
    }
}

/// Every `$ref` of a description that does not land is among its issues,
/// at the path of the object that holds it.
pub proof fn every_dangling_ref_of_a_description_is_reported(
    document: Json,
    steps: Seq<int>,
    reached: Json,
    at: Seq<char>,
    target: Seq<char>,
)
    requires
        document is Object,
        descend(document, Seq::empty(), steps) == Some((reached, at)),
        dangling_target(document, reached) == Some(target),
    ensures
        soundness_issues(document).contains(
            issue_of("reference"@, "$ref "@ + target + " does not land"@, Some(trim_start_dots(at))),
        ),
{
    let x = issue_of("reference"@, "$ref "@ + target + " does not land"@, Some(trim_start_dots(at)));
    every_dangling_ref_is_reported(document, document, Seq::empty(), steps, reached, at, target);
    if let Json::Object(entries) = document {
        let version = crate::openapi::declared_version(entries@);
        let required = crate::openapi::responses_required(version);
        let a = crate::openapi::version_issues(version) + crate::openapi::info_issues(
            entries@,
            "title"@,
        ) + crate::openapi::info_issues(entries@, "version"@)
            + crate::openapi::paths_section_issues(entries@, required);
        lemma_contains_concat(a, ref_issues(document, document, Seq::empty()), x);
    }
}

/// A route written as a method, one space, and a path that begins with
/// `/` is bound to that method in lower case and to that path unchanged.
pub proof fn a_route_is_parsed_as_written(method: Seq<char>, path: Seq<char>)
    requires
        method.len() > 0,
        !is_white(method[0]),
        forall|j: int| 0 <= j < method.len() ==> method[j] != ' ',
        path.len() > 0,
        path[0] == '/',
        !is_white(path.last()),
    ensures
        parse_operation(method + " "@ + path) == Ok::<OperationView, Seq<char>>(
            OperationView::Route { method: ascii_lower(method), path },
        ),
{
    reveal_strlit(" ");
    let t = method + " "@ + path;
    assert(t[0] == method[0]);
    assert(t.last() == path.last());
    crate::laws::lemma_trim_fixed(t);
    crate::laws::lemma_trim_fixed(path);
    lemma_index_of(t, ' ');
    assert(t[method.len() as int] == ' ');
    assert forall|j: int| 0 <= j < method.len() implies t[j] != ' ' by {
        assert(t[j] == method[j]);
    }
    assert(t.skip(method.len() as int + 1) =~= path);
    assert(t.take(method.len() as int) =~= method);
}

/// A reference that has no space and no white space at its ends is bound
/// to the operation id it is, unchanged.
pub proof fn an_id_is_parsed_as_written(id: Seq<char>)
    requires
        id.len() > 0,
        !is_white(id[0]),
        !is_white(id.last()),
        forall|j: int| 0 <= j < id.len() ==> id[j] != ' ',
    ensures
        parse_operation(id) == Ok::<OperationView, Seq<char>>(OperationView::Id(id)),
{
    crate::laws::lemma_trim_fixed(id);
    lemma_index_of(id, ' ');
}

/// A stream is taken for a description whenever its bytes are UTF-8 text
/// that holds `"openapi"` or `"swagger"`, whatever media type it declares.
pub proof fn a_text_that_names_openapi_is_identified(media_type: Option<Seq<char>>, bytes: Seq<u8>)
    requires
        vstd::utf8::valid_utf8(bytes),
        contains_text(vstd::utf8::decode_utf8(bytes), "\"openapi\""@) || contains_text(
            vstd::utf8::decode_utf8(bytes),
            "\"swagger\""@,
        ),
    ensures
        identifies(media_type, bytes),
{
}

/// A stream is taken for a description only on one of two grounds: its
/// media type names one, or its text holds `"openapi"` or `"swagger"`.
pub proof fn identification_has_two_grounds(media_type: Option<Seq<char>>, bytes: Seq<u8>)
    requires
        identifies(media_type, bytes),
    ensures
        (media_type matches Some(m) && names_openapi(m)) || (vstd::utf8::valid_utf8(bytes) && (
        contains_text(vstd::utf8::decode_utf8(bytes), "\"openapi\""@) || contains_text(
            vstd::utf8::decode_utf8(bytes),
            "\"swagger\""@,
        ))),
{
}

/// Text without `/` is one piece.
proof fn lemma_split_whole(s: Seq<char>)
    requires
        forall|j: int| 0 <= j < s.len() ==> s[j] != '/',
    ensures
        crate::json::split_slash(s) == seq![s],
    decreases s.len(),
{
    if s.len() > 0 {
        lemma_split_whole(s.drop_first());
        assert(seq![s[0]] + s.drop_first() =~= s);
        assert(s[0] != '/');
        assert(seq![s.drop_first()].update(0, seq![s[0]] + s.drop_first()) =~= seq![s]);
    } else {
        assert(s =~= Seq::<char>::empty());
    }
}

/// Text without `/`, a `/`, and more, is that text and the pieces of the
/// rest.
proof fn lemma_split_first(a: Seq<char>, b: Seq<char>)
    requires
        forall|j: int| 0 <= j < a.len() ==> a[j] != '/',
    ensures
        crate::json::split_slash(a + seq!['/'] + b) == seq![a] + crate::json::split_slash(b),
    decreases a.len(),
{
    let s = a + seq!['/'] + b;
    if a.len() == 0 {
        assert(s.drop_first() =~= b);
        assert(a =~= Seq::<char>::empty());
        assert(seq![Seq::<char>::empty()] =~= seq![a]);
    } else {
        assert(s.drop_first() =~= a.drop_first() + seq!['/'] + b);
        lemma_split_first(a.drop_first(), b);
        let rest = crate::json::split_slash(s.drop_first());
        assert(rest[0] == a.drop_first());
        assert(seq![a[0]] + a.drop_first() =~= a);
        assert(rest.update(0, seq![s[0]] + rest[0]) =~= seq![a] + crate::json::split_slash(b));
    }
}

/// Text without `~` has no escape to undo.
proof fn lemma_no_tilde(s: Seq<char>, d: char, to: char)
    requires
        forall|j: int| 0 <= j < s.len() ==> s[j] != '~',
    ensures
        crate::json::replace_tilde(s, d, to) == s,
    decreases s.len(),
{
    if s.len() > 0 {
        lemma_no_tilde(s.drop_first(), d, to);
        assert(seq![s[0]] + s.drop_first() =~= s);
    }
}

/// A description's title is its `info.title`, the whole string, when that
/// is a string; empty otherwise.
pub proof fn the_title_is_info_title(document: Json)
    ensures
        description_of(document).title == match text_of(
            crate::json::member_of(member(document, "info"@), "title"@),
        ) {
            Some(t) => t,
            None => Seq::empty(),
        },
{
    reveal_strlit("/info/title");
    reveal_strlit("info");
    reveal_strlit("title");
    let info = "info"@;
    let title = "title"@;
    let rest = "/info/title"@.drop_first();
    assert(rest =~= info + seq!['/'] + title);
    lemma_split_first(info, title);
    lemma_split_whole(title);
    let tokens = crate::json::split_slash(rest);
    assert(tokens =~= seq![info, title]);
    lemma_no_tilde(info, '1', '/');
    lemma_no_tilde(info, '0', '~');
    lemma_no_tilde(title, '1', '/');
    lemma_no_tilde(title, '0', '~');
    assert(crate::json::unescape_token(tokens[0]) == info);
    assert(crate::json::unescape_token(tokens[1]) == title);
    assert(!crate::json::all_digits(info));
    assert(!crate::json::all_digits(title));
    assert(tokens.drop_first() =~= seq![title]);
    assert(tokens.drop_first().drop_first() =~= Seq::<Seq<char>>::empty());
    reveal_with_fuel(crate::json::pointer_walk, 3);
    let first = crate::json::pointer_step(document, info);
    assert(first == member(document, info));
    match first {
        Some(next) => {
            assert(crate::json::pointer_step(next, title) == member(next, title));
        },
        None => {},
    }
}

} // verus!
