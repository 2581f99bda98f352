//! The `OpenAPI` contract: a document holds when it is a sound description
//! and, once an operation is bound, when it defines that operation.
//!
//! A sound description is a JSON object that says which `OpenAPI` it is
//! (`openapi` 3.x, or `swagger` 2.0), names its `info.title` and
//! `info.version`, keeps its `paths` as an object of templates that begin
//! with `/`, gives every operation under them its `responses` where the
//! version requires it, and refers with `$ref` only to what the document
//! itself holds.

use vstd::prelude::*;
use crate::contract::{
    ContractDescriptor, ContractError, ContractId, DescriptorView, IssueView, ValidationIssue,
    ValidationResult, issue, issue_of, issue_views, opt_text, result,
};
use crate::description::{method_at, methods};
use crate::json::{
    Json, is_object, lookup, lookup_entry, member, member_json, member_of, parse_json_bytes,
    json_pointer, json_well_formed, resolve_pointer, serde_json_from_slice, text_of,
};
use crate::operation::{Operation, OperationView, parse_operation, reference_text};
use crate::stream::Stream;
use crate::text::{
    chars_between, chars_eq, chars_of, contains_chars, contains_text, decimal, decimal_chars,
    eq_ignore_ascii_case, eq_ignore_ascii_case_chars, index_of, index_of_char, same_text,
    starts_with, starts_with_chars, string_from_chars, trim, trim_chars, trim_start_dots,
    trim_start_dots_chars, utf8_text,
};

verus! {

/// Appends the issue of `code`, `message` and `path` to `issues`.
fn push_issue(issues: &mut Vec<ValidationIssue>, code: &str, message: &str, path: Option<String>)
    ensures
        issue_views(final(issues)@) == issue_views(old(issues)@).push(
            issue_of(code@, message@, opt_text(path)),
        ),
{
    let i = issue(code, message, path);
    issues.push(i);
    assert(issue_views(issues@) =~= issue_views(old(issues)@).push(i@));
}

/// The version a description declares: `openapi`, or `swagger` when there
/// is no `openapi`, as text; empty when it is no string.
pub open spec fn declared_version(entries: Seq<(String, Json)>) -> Seq<char> {
    let declared = match lookup(entries, "openapi"@) {
        Some(v) => Some(v),
        None => lookup(entries, "swagger"@),
    };
    match text_of(declared) {
        Some(v) => v,
        None => Seq::empty(),
    }
}

/// Whether the version requires every operation to give its `responses`,
/// and the description its `paths`: all but 3.1.
pub open spec fn responses_required(version: Seq<char>) -> bool {
    !starts_with(version, "3.1"@)
}

/// The issue of a version that is neither 3.x nor 2.0.
pub open spec fn version_issues(version: Seq<char>) -> Seq<IssueView> {
    if starts_with(version, "3."@) || version == "2.0"@ {
        Seq::empty()
    } else {
        seq![
            issue_of(
                "structure"@,
                "neither openapi 3.x nor swagger 2.0 is declared"@,
                Some("openapi"@),
            ),
        ]
    }
}

/// The issue of an `info.<field>` that is not a string.
pub open spec fn info_issues(entries: Seq<(String, Json)>, field: Seq<char>) -> Seq<IssueView> {
    if text_of(member_of(lookup(entries, "info"@), field)) is None {
        seq![issue_of("structure"@, "info."@ + field + " is missing"@, Some("info"@))]
    } else {
        Seq::empty()
    }
}

/// The issue of a path template that does not begin with `/`.
pub open spec fn template_issues(template: Seq<char>) -> Seq<IssueView> {
    if template.len() > 0 && template[0] == '/' {
        Seq::empty()
    } else {
        seq![
            issue_of(
                "structure"@,
                "a path template that does not begin with /"@,
                Some("paths."@ + template),
            ),
        ]
    }
}

/// The issue of the operation under `template` with the method at `k` of
/// `METHODS`, when it has no `responses` object and the version requires
/// one.
pub open spec fn operation_issues(
    template: Seq<char>,
    item: Seq<(String, Json)>,
    required: bool,
    k: int,
) -> Seq<IssueView> {
    match lookup(item, methods()[k]) {
        Some(operation) => if required && !is_object(member(operation, "responses"@)) {
            seq![
                issue_of(
                    "structure"@,
                    "an operation without responses"@,
                    Some("paths."@ + template + "."@ + methods()[k]),
                ),
            ]
        } else {
            Seq::empty()
        },
        None => Seq::empty(),
    }
}

/// The issues of the operations of `item` with the first `k` methods.
pub open spec fn operations_issues(
    template: Seq<char>,
    item: Seq<(String, Json)>,
    required: bool,
    k: int,
) -> Seq<IssueView>
    decreases k,
{
    if k <= 0 {
        Seq::empty()
    } else {
        operations_issues(template, item, required, k - 1) + operation_issues(
            template,
            item,
            required,
            k - 1,
        )
    }
}

/// The issues of one path item: of its template, then of its operations.
pub open spec fn path_item_issues(template: Seq<char>, item: Json, required: bool) -> Seq<
    IssueView,
> {
    template_issues(template) + match item {
        Json::Object(entries) => operations_issues(template, entries@, required, 8),
        _ => Seq::empty(),
    }
}

/// The issues of the path items of `paths`, in order.
pub open spec fn paths_issues(paths: Seq<(String, Json)>, required: bool) -> Seq<IssueView>
    decreases paths.len(),
{
    if paths.len() == 0 {
        Seq::empty()
    } else {
        paths_issues(paths.drop_last(), required) + path_item_issues(
            paths.last().0@,
            paths.last().1,
            required,
        )
    }
}

/// The issues of `paths`: of its items when it is an object; of its kind
/// when it is anything else; of its absence when the version requires it.
pub open spec fn paths_section_issues(entries: Seq<(String, Json)>, required: bool) -> Seq<
    IssueView,
> {
    match lookup(entries, "paths"@) {
        Some(Json::Object(paths)) => paths_issues(paths@, required),
        Some(_) => seq![issue_of("structure"@, "paths is not an object"@, Some("paths"@))],
        None => if required {
            seq![issue_of("structure"@, "paths is missing"@, Some("paths"@))]
        } else {
            Seq::empty()
        },
    }
}

/// The issue of the `$ref` `target` that does not land, at `path` without
/// its leading dots.
pub open spec fn dangling_issue(target: Seq<char>, path: Seq<char>) -> IssueView {
    issue_of("reference"@, "$ref "@ + target + " does not land"@, Some(trim_start_dots(path)))
}

/// The issue of an object whose `$ref` is a string that begins with `#`
/// and whose rest, as a JSON Pointer, names nothing in `root`.
pub open spec fn own_ref_issues(root: Json, entries: Seq<(String, Json)>, path: Seq<char>) -> Seq<
    IssueView,
> {
    match lookup(entries, "$ref"@) {
        Some(Json::Str(target)) => if target@.len() > 0 && target@[0] == '#'
            && json_pointer(root, target@.drop_first()) is None {
            seq![dangling_issue(target@, path)]
        } else {
            Seq::empty()
        },
        _ => Seq::empty(),
    }
}

/// Every `$ref` under `value`, which stands at `path` in `root`, that
/// begins with `#` and does not land: the object's own first, then those
/// of its members in order; those of an array's elements in order.
pub open spec fn ref_issues(root: Json, value: Json, path: Seq<char>) -> Seq<IssueView>
    decreases value, 1int, 0int,
{
    match value {
        Json::Object(entries) => own_ref_issues(root, entries@, path) + members_ref_issues(
            root,
            value,
            path,
            entries@.len() as int,
        ),
        Json::Array(items) => elements_ref_issues(root, value, path, items@.len() as int),
        _ => Seq::empty(),
    }
}

/// The `$ref` issues of the first `n` members of the object `parent`.
pub open spec fn members_ref_issues(root: Json, parent: Json, path: Seq<char>, n: int) -> Seq<
    IssueView,
>
    decreases parent, 0int, n,
{
    match parent {
        Json::Object(entries) => if 0 < n <= entries@.len() {
            members_ref_issues(root, parent, path, n - 1) + ref_issues(
                root,
                entries@[n - 1].1,
                path + "."@ + entries@[n - 1].0@,
            )
        } else {
            Seq::empty()
        },
        _ => Seq::empty(),
    }
}

/// The `$ref` issues of the first `n` elements of the array `parent`.
pub open spec fn elements_ref_issues(root: Json, parent: Json, path: Seq<char>, n: int) -> Seq<
    IssueView,
>
    decreases parent, 0int, n,
{
    match parent {
        Json::Array(items) => if 0 < n <= items@.len() {
            elements_ref_issues(root, parent, path, n - 1) + ref_issues(
                root,
                items@[n - 1],
                path + "["@ + decimal((n - 1) as nat) + "]"@,
            )
        } else {
            Seq::empty()
        },
        _ => Seq::empty(),
    }
}

/// The text of `path` extended by `.key`.
fn member_path(path: &String, key: &String) -> (p: String)
    ensures
        p@ == path@ + "."@ + key@,
{
    let mut p = path.clone();
    p.append(".");
    p.append(key.as_str());
    p
}

/// The text of `path` extended by `[i]`.
fn element_path(path: &String, i: usize) -> (p: String)
    ensures
        p@ == path@ + "["@ + decimal(i as nat) + "]"@,
{
    let mut p = path.clone();
    p.append("[");
    p.append(string_from_chars(&decimal_chars(i)).as_str());
    p.append("]");
    p
}

/// The issue of the `$ref` `target`, standing at `path`, given what
/// `Value::pointer` found for it: none when it found something.
pub fn reference_issue(target: &String, path: &String, found: &Option<Json>) -> (r: Option<
    ValidationIssue,
>)
    ensures
        found is Some ==> r is None,
        found is None ==> (r matches Some(i) && i@ == dangling_issue(target@, path@)),
{
    if found.is_some() {
        return None;
    }
    let mut message = String::from_str("$ref ");
    message.append(target.as_str());
    message.append(" does not land");
    let at = string_from_chars(&trim_start_dots_chars(&chars_of(path.as_str())));
    Some(issue("reference", message.as_str(), Some(at)))
}

/// Appends the issue of the object `entries`, at `path` in `root`, whose
/// own `$ref` does not land.
fn own_references(
    root: &Json,
    entries: &Vec<(String, Json)>,
    path: &String,
    issues: &mut Vec<ValidationIssue>,
)
    requires
        json_well_formed(*root),
    ensures
        issue_views(final(issues)@) == issue_views(old(issues)@) + own_ref_issues(
            *root,
            entries@,
            path@,
        ),
{
    if let Some(Json::Str(target)) = lookup_entry(entries, "$ref") {
        let t = chars_of(target.as_str());
        if t.len() > 0 && t[0] == '#' {
            let rest = string_from_chars(&chars_between(&t, 1, t.len()));
            assert(t@.drop_first() =~= t@.subrange(1, t@.len() as int));
            let found = resolve_pointer(root, rest.as_str());
            if let Some(dangling) = reference_issue(target, path, &found) {
                issues.push(dangling);
                assert(issue_views(issues@) =~= issue_views(old(issues)@).push(dangling@));
                return;
            }
        }
    }
    assert(issue_views(issues@) =~= issue_views(old(issues)@) + Seq::<IssueView>::empty());
}

/// Appends every `$ref` under `value`, which stands at `path` in `root`,
/// that begins with `#` and does not land.
pub fn references(root: &Json, value: &Json, path: &String, issues: &mut Vec<ValidationIssue>)
    requires
        json_well_formed(*root),
    ensures
        issue_views(final(issues)@) == issue_views(old(issues)@) + ref_issues(
            *root,
            *value,
            path@,
        ),
    decreases value,
{
    let ghost start = issue_views(issues@);
    match value {
        Json::Object(entries) => {
            own_references(root, entries, path, issues);
            let ghost own = issue_views(issues@);
            let mut i: usize = 0;
            while i < entries.len()
                invariant
                    i <= entries@.len(),
                    own == start + own_ref_issues(*root, entries@, path@),
                    issue_views(issues@) == own + members_ref_issues(
                        *root,
                        *value,
                        path@,
                        i as int,
                    ),
                    *value == Json::Object(*entries),
                    json_well_formed(*root),
                decreases entries@.len() - i,
            {
                let child_path = member_path(path, &entries[i].0);
                references(root, &entries[i].1, &child_path, issues);
                i += 1;
            }
        },
        Json::Array(items) => {
            let mut i: usize = 0;
            assert(issue_views(issues@) =~= start + elements_ref_issues(*root, *value, path@, 0));
            while i < items.len()
                invariant
                    i <= items@.len(),
                    issue_views(issues@) == start + elements_ref_issues(
                        *root,
                        *value,
                        path@,
                        i as int,
                    ),
                    *value == Json::Array(*items),
                    json_well_formed(*root),
                decreases items@.len() - i,
            {
                let child_path = element_path(path, i);
                references(root, &items[i], &child_path, issues);
                i += 1;
            }
        },
        _ => {
            assert(issue_views(issues@) =~= start + Seq::<IssueView>::empty());
        },
    }
}

/// Every departure of `document` from a sound description: a document that
/// is no object is only that; an object has the issues of its version, of
/// `info.title` and `info.version`, of `paths`, and of its references.
pub open spec fn soundness_issues(document: Json) -> Seq<IssueView> {
    match document {
        Json::Object(entries) => {
            let version = declared_version(entries@);
            let required = responses_required(version);
            version_issues(version) + info_issues(entries@, "title"@) + info_issues(
                entries@,
                "version"@,
            ) + paths_section_issues(entries@, required) + ref_issues(
                document,
                document,
                Seq::empty(),
            )
        },
        _ => seq![issue_of("malformed"@, "the document is not a JSON object"@, None)],
    }
}

/// The version that `entries` declares.
fn version_of(entries: &Vec<(String, Json)>) -> (v: Vec<char>)
    ensures
        v@ == declared_version(entries@),
{
    let declared = match lookup_entry(entries, "openapi") {
        Some(v) => Some(v),
        None => lookup_entry(entries, "swagger"),
    };
    match declared {
        Some(Json::Str(v)) => chars_of(v.as_str()),
        _ => Vec::new(),
    }
}

/// Appends the issue of an `info.<field>` that is not a string.
fn check_info(entries: &Vec<(String, Json)>, field: &str, issues: &mut Vec<ValidationIssue>)
    ensures
        issue_views(final(issues)@) == issue_views(old(issues)@) + info_issues(entries@, field@),
{
    let present = match lookup_entry(entries, "info") {
        Some(info) => match member_json(info, field) {
            Some(Json::Str(_)) => true,
            _ => false,
        },
        None => false,
    };
    if !present {
        let mut message = String::from_str("info.");
        message.append(field);
        message.append(" is missing");
        push_issue(issues, "structure", message.as_str(), Some(String::from_str("info")));
    } else {
        assert(issue_views(issues@) =~= issue_views(old(issues)@) + Seq::<IssueView>::empty());
    }
}

/// Appends the issues of the path item `item` under `template`.
fn check_path_item(
    template: &String,
    item: &Json,
    required: bool,
    issues: &mut Vec<ValidationIssue>,
)
    ensures
        issue_views(final(issues)@) == issue_views(old(issues)@) + path_item_issues(
            template@,
            *item,
            required,
        ),
{
    let ghost start = issue_views(issues@);
    let t = chars_of(template.as_str());
    if !(t.len() > 0 && t[0] == '/') {
        let mut at = String::from_str("paths.");
        at.append(template.as_str());
        push_issue(issues, "structure", "a path template that does not begin with /", Some(at));
    }
    let ghost after_template = issue_views(issues@);
    assert(after_template =~= start + template_issues(template@));
    if let Json::Object(entries) = item {
        let mut k: usize = 0;
        while k < 8
            invariant
                k <= 8,
                issue_views(issues@) == after_template + operations_issues(
                    template@,
                    entries@,
                    required,
                    k as int,
                ),
            decreases 8 - k,
        {
            let method = method_at(k);
            let ghost before = issue_views(issues@);
            if let Some(operation) = lookup_entry(entries, method) {
                let has_responses = match member_json(operation, "responses") {
                    Some(Json::Object(_)) => true,
                    _ => false,
                };
                if required && !has_responses {
                    let mut at = String::from_str("paths.");
                    at.append(template.as_str());
                    at.append(".");
                    at.append(method);
                    push_issue(issues, "structure", "an operation without responses", Some(at));
                }
            }
            assert(issue_views(issues@) =~= before + operation_issues(
                template@,
                entries@,
                required,
                k as int,
            ));
            k += 1;
        }
    } else {
        assert(issue_views(issues@) =~= after_template + Seq::<IssueView>::empty());
    }
}

/// Appends the issues of `paths`.
fn check_paths(entries: &Vec<(String, Json)>, required: bool, issues: &mut Vec<ValidationIssue>)
    ensures
        issue_views(final(issues)@) == issue_views(old(issues)@) + paths_section_issues(
            entries@,
            required,
        ),
{
    let ghost start = issue_views(issues@);
    match lookup_entry(entries, "paths") {
        Some(Json::Object(paths)) => {
            let mut i: usize = 0;
            assert(paths_issues(paths@.take(0), required) =~= Seq::<IssueView>::empty());
            assert(issue_views(issues@) =~= start + Seq::<IssueView>::empty());
            while i < paths.len()
                invariant
                    i <= paths@.len(),
                    issue_views(issues@) == start + paths_issues(paths@.take(i as int), required),
                decreases paths@.len() - i,
            {
                check_path_item(&paths[i].0, &paths[i].1, required, issues);
                assert(paths@.take(i + 1).drop_last() =~= paths@.take(i as int));
                i += 1;
            }
            assert(paths@.take(paths@.len() as int) =~= paths@);
        },
        Some(_) => {
            push_issue(
                issues,
                "structure",
                "paths is not an object",
                Some(String::from_str("paths")),
            );
        },
        None => {
            if required {
                push_issue(issues, "structure", "paths is missing", Some(String::from_str("paths")));
            } else {
                assert(issue_views(issues@) =~= start + Seq::<IssueView>::empty());
            }
        },
    }
}

/// Every departure of `document` from a sound description.
pub fn soundness(document: &Json) -> (issues: Vec<ValidationIssue>)
    requires
        json_well_formed(*document),
    ensures
        issue_views(issues@) == soundness_issues(*document),
{
    let mut issues: Vec<ValidationIssue> = Vec::new();
    match document {
        Json::Object(entries) => {
            assert(issue_views(issues@) =~= Seq::<IssueView>::empty());
            let version = version_of(entries);
            let required = !starts_with_chars(&version, &chars_of("3.1"));
            if !(starts_with_chars(&version, &chars_of("3.")) || chars_eq(&version, &chars_of("2.0"))) {
                push_issue(
                    &mut issues,
                    "structure",
                    "neither openapi 3.x nor swagger 2.0 is declared",
                    Some(String::from_str("openapi")),
                );
            }
            assert(issue_views(issues@) =~= version_issues(version@));
            check_info(entries, "title", &mut issues);
            check_info(entries, "version", &mut issues);
            check_paths(entries, required, &mut issues);
            references(document, document, &String::new(), &mut issues);
        },
        _ => {
            push_issue(&mut issues, "malformed", "the document is not a JSON object", None);
        },
    }
    issues
}

/// The `operationId` of the operation of the method at `k` of `METHODS`
/// under the path item `item`, when it is a string.
pub open spec fn operation_id_at(item: Json, k: int) -> Option<Seq<char>> {
    text_of(member_of(member(item, methods()[k]), "operationId"@))
}

/// Whether `document` defines `operation`: its `paths` is an object, and a
/// route names a method of the item under its path, or an id is the
/// `operationId` of an operation of some item.
pub open spec fn defines_operation(document: Json, operation: OperationView) -> bool {
    match member(document, "paths"@) {
        Some(Json::Object(paths)) => match operation {
            OperationView::Route { method, path } => member_of(lookup(paths@, path), method) is Some,
            OperationView::Id(id) => exists|i: int, k: int|
                0 <= i < paths@.len() && 0 <= k < 8 && #[trigger] operation_id_at(paths@[i].1, k)
                    == Some(id),
        },
        _ => false,
    }
}

/// Whether some method of `item` has the `operationId` `id`.
fn item_has_id(item: &Json, id: &String) -> (r: bool)
    ensures
        r == exists|k: int| 0 <= k < 8 && #[trigger] operation_id_at(*item, k) == Some(id@),
{
    let mut k: usize = 0;
    while k < 8
        invariant
            k <= 8,
            forall|j: int| 0 <= j < k ==> #[trigger] operation_id_at(*item, j) != Some(id@),
        decreases 8 - k,
    {
        let method = method_at(k);
        if let Some(operation) = member_json(item, method) {
            if let Some(Json::Str(found)) = member_json(operation, "operationId") {
                if same_text(found.as_str(), id.as_str()) {
                    assert(operation_id_at(*item, k as int) == Some(id@));
                    return true;
                }
            }
        }
        k += 1;
    }
    false
}

/// Whether `document` defines `operation`.
pub fn defines(document: &Json, operation: &Operation) -> (r: bool)
    ensures
        r == defines_operation(*document, operation@),
{
    let paths = match member_json(document, "paths") {
        Some(Json::Object(paths)) => paths,
        _ => {
            return false;
        },
    };
    match operation {
        Operation::Route { method, path } => match lookup_entry(paths, path.as_str()) {
            Some(item) => member_json(item, method.as_str()).is_some(),
            None => false,
        },
        Operation::Id(id) => {
            let mut i: usize = 0;
            while i < paths.len()
                invariant
                    i <= paths@.len(),
                    member(*document, "paths"@) == Some(Json::Object(*paths)),
                    operation@ == OperationView::Id(id@),
                    forall|j: int, k: int|
                        0 <= j < i && 0 <= k < 8 ==> #[trigger] operation_id_at(paths@[j].1, k)
                            != Some(id@),
                decreases paths@.len() - i,
            {
                if item_has_id(&paths[i].1, id) {
                    proof {
                        let k = choose|k: int|
                            0 <= k < 8 && #[trigger] operation_id_at(paths@[i as int].1, k) == Some(
                                id@,
                            );
                        assert(operation_id_at(paths@[i as int].1, k) == Some(id@));
                    }
                    return true;
                }
                i += 1;
            }
            false
        },
    }
}

/// The issues of `document` under a contract bound to `operation`, when
/// one is: its departures from a sound description, then, when it does not
/// define the operation, that.
pub open spec fn contract_issues(operation: Option<OperationView>, document: Json) -> Seq<
    IssueView,
> {
    soundness_issues(document) + match operation {
        Some(op) => if defines_operation(document, op) {
            Seq::empty()
        } else {
            seq![issue_of("operation"@, "does not define "@ + reference_text(op), Some("paths"@))]
        },
        None => Seq::empty(),
    }
}

/// The issues of what parsing gave: those of the document, or that it is
/// not JSON.
pub open spec fn parsed_issues(operation: Option<OperationView>, parsed: Result<Json, Seq<char>>) -> Seq<
    IssueView,
> {
    match parsed {
        Ok(document) => contract_issues(operation, document),
        Err(error) => seq![issue_of("malformed"@, "not JSON: "@ + error, None)],
    }
}

/// The view of what may be a parse's outcome.
pub open spec fn parsed_view(parsed: Result<Json, String>) -> Result<Json, Seq<char>> {
    match parsed {
        Ok(document) => Ok(document),
        Err(error) => Err(error@),
    }
}

/// Whether the media type `m` names an `OpenAPI` description in JSON: what
/// stands before its first `;`, trimmed, is one of the two names, in any
/// ASCII case.
pub open spec fn names_openapi(m: Seq<char>) -> bool {
    let base = trim(
        match index_of(m, ';') {
            Some(i) => m.take(i),
            None => m,
        },
    );
    eq_ignore_ascii_case(base, "application/vnd.oai.openapi+json"@) || eq_ignore_ascii_case(
        base,
        "application/vnd.oai.openapi"@,
    )
}

/// Whether a stream of `media_type` and `bytes` is taken for an `OpenAPI`
/// description: its media type names one, or its bytes are UTF-8 text that
/// holds `"openapi"` or `"swagger"`, quotes included.
pub open spec fn identifies(media_type: Option<Seq<char>>, bytes: Seq<u8>) -> bool {
    ||| (media_type matches Some(m) && names_openapi(m))
    ||| (vstd::utf8::valid_utf8(bytes) && (contains_text(
        vstd::utf8::decode_utf8(bytes),
        "\"openapi\""@,
    ) || contains_text(vstd::utf8::decode_utf8(bytes), "\"swagger\""@)))
}

/// The descriptor of the contract `id`.
pub open spec fn descriptor_of(id: Seq<char>) -> DescriptorView {
    DescriptorView { id, version: "1"@, representation: "application/vnd.oai.openapi+json"@ }
}

/// The `OpenAPI` contract, bare or bound to an operation.
#[derive(Debug)]
pub struct OpenApi {
    descriptor: ContractDescriptor,
    operation: Option<Operation>,
}

/// A contract's descriptor and bound operation.
pub ghost struct OpenApiView {
    pub descriptor: DescriptorView,
    pub operation: Option<OperationView>,
}

impl View for OpenApi {
    type V = OpenApiView;

    closed spec fn view(&self) -> OpenApiView {
        OpenApiView {
            descriptor: self.descriptor@,
            operation: match self.operation {
                Some(op) => Some(op@),
                None => None,
            },
        }
    }
}

/// The bare contract: `openapi`, bound to no operation.
pub open spec fn bare() -> OpenApiView {
    OpenApiView { descriptor: descriptor_of("openapi"@), operation: None }
}

/// The contract bound to `op`: `openapi:` and how `op` is written.
pub open spec fn bound(op: OperationView) -> OpenApiView {
    OpenApiView { descriptor: descriptor_of("openapi:"@ + reference_text(op)), operation: Some(op) }
}

/// The descriptor of the contract `id`.
fn descriptor(id: String) -> (d: ContractDescriptor)
    ensures
        d@ == descriptor_of(id@),
{
    ContractDescriptor {
        id: ContractId(id),
        version: String::from_str("1"),
        representation: String::from_str("application/vnd.oai.openapi+json"),
    }
}

impl Default for OpenApi {
    fn default() -> (c: Self)
        ensures
            c@ == bare(),
    {
        Self::new()
    }
}

impl OpenApi {
    /// A sound description, of any operations.
    pub fn new() -> (c: Self)
        ensures
            c@ == bare(),
    {
        OpenApi { descriptor: descriptor(String::from_str("openapi")), operation: None }
    }

    /// A sound description that defines `operation`.
    pub fn of(operation: Operation) -> (c: Self)
        ensures
            c@ == bound(operation@),
    {
        let mut id = String::from_str("openapi:");
        id.append(operation.reference().as_str());
        OpenApi { descriptor: descriptor(id), operation: Some(operation) }
    }

    /// Whether an operation is bound.
    pub fn is_bound(&self) -> (b: bool)
        ensures
            b == self@.operation is Some,
    {
        self.operation.is_some()
    }

    /// What this contract is.
    pub fn descriptor(&self) -> (d: &ContractDescriptor)
        ensures
            d@ == self@.descriptor,
    {
        &self.descriptor
    }

    /// Whether `stream` is taken for an `OpenAPI` description.
    pub fn identify(&self, stream: &Stream) -> (r: Result<bool, ContractError>)
        ensures
            r matches Ok(b) && b == identifies(stream@.media_type, stream@.bytes),
    {
        if let Some(m) = stream.media_type() {
            let chars = chars_of(m);
            let base = match index_of_char(&chars, ';') {
                Some(i) => {
                    assert(chars@.take(i as int) =~= chars@.subrange(0, i as int));
                    chars_between(&chars, 0, i)
                },
                None => chars,
            };
            let base = trim_chars(&base);
            if eq_ignore_ascii_case_chars(&base, &chars_of("application/vnd.oai.openapi+json"))
                || eq_ignore_ascii_case_chars(&base, &chars_of("application/vnd.oai.openapi")) {
                return Ok(true);
            }
        }
        match utf8_text(stream.bytes()) {
            Some(text) => {
                let text = chars_of(text);
                Ok(contains_chars(&text, &chars_of("\"openapi\"")) || contains_chars(
                    &text,
                    &chars_of("\"swagger\""),
                ))
            },
            None => Ok(false),
        }
    }

    /// The outcome of validating what parsing a stream gave: the issues of
    /// the document under this contract, or that it is not JSON.
    pub fn validate_parsed(&self, parsed: Result<Json, String>) -> (r: ValidationResult)
        requires
            match parsed {
                Ok(document) => json_well_formed(document),
                Err(_) => true,
            },
        ensures
            issue_views(r.issues@) == parsed_issues(self@.operation, parsed_view(parsed)),
            r.valid == (r.issues@.len() == 0),
    {
        match parsed {
            Ok(document) => {
                let mut issues = soundness(&document);
                if let Some(operation) = &self.operation {
                    if !defines(&document, operation) {
                        let mut message = String::from_str("does not define ");
                        message.append(operation.reference().as_str());
                        push_issue(
                            &mut issues,
                            "operation",
                            message.as_str(),
                            Some(String::from_str("paths")),
                        );
                    } else {
                        assert(issue_views(issues@) =~= soundness_issues(document) + Seq::<
                            IssueView,
                        >::empty());
                    }
                } else {
                    assert(issue_views(issues@) =~= soundness_issues(document) + Seq::<
                        IssueView,
                    >::empty());
                }
                result(issues)
            },
            Err(error) => {
                let mut message = String::from_str("not JSON: ");
                message.append(error.as_str());
                let mut issues: Vec<ValidationIssue> = Vec::new();
                assert(issue_views(issues@) =~= Seq::<IssueView>::empty());
                push_issue(&mut issues, "malformed", message.as_str(), None);
                result(issues)
            },
        }
    }

    /// Every departure of `stream` from this contract.
    pub fn validate(&self, stream: &Stream) -> (r: Result<ValidationResult, ContractError>)
        ensures
            r matches Ok(res) && issue_views(res.issues@) == parsed_issues(
                self@.operation,
                serde_json_from_slice(stream@.bytes),
            ) && res.valid == (res.issues@.len() == 0),
            serde_json_from_slice(stream@.bytes) matches Ok(document) ==> json_well_formed(document),
    {
        let parsed = parse_json_bytes(stream.bytes());
        Ok(self.validate_parsed(parsed))
    }
}

/// Loads the contract a Location names: an empty reference is the bare
/// contract, anything else an operation, `POST /orders` or `placeOrder`.
#[derive(Clone, Copy, Debug)]
pub struct OpenApiFactory;

impl OpenApiFactory {
    /// The technology this factory loads contracts of.
    pub fn technology(&self) -> (t: &'static str)
        ensures
            t@ == "openapi"@,
    {
        "openapi"
    }

    /// The contract `reference` names: bare when it is blank, else bound to
    /// the operation it names.
    ///
    /// # Errors
    /// A reference that names no operation.
    pub fn load(&self, reference: &str) -> (r: Result<OpenApi, ContractError>)
        ensures
            trim(reference@).len() == 0 ==> (r matches Ok(c) && c@ == bare()),
            trim(reference@).len() != 0 ==> match parse_operation(reference@) {
                Ok(op) => (r matches Ok(c) && c@ == bound(op)),
                Err(m) => (r matches Err(e) && e.message@ == m),
            },
    {
        if trim_chars(&chars_of(reference)).len() == 0 {
            return Ok(OpenApi::new());
        }
        match Operation::parse(reference) {
            Ok(operation) => Ok(OpenApi::of(operation)),
            Err(error) => Err(error),
        }
    }
}

} // verus!
