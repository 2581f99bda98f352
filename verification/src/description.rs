//! What an `OpenAPI` description declares, read once: its title and every
//! operation under `paths`.

use vstd::prelude::*;
use crate::contract::ContractError;
use crate::json::{
    Json, lookup, lookup_entry, member, member_json, parse_json_text, resolve_pointer,
    json_pointer, json_well_formed, serde_json_from_str, text_of,
};

verus! {

/// The eight HTTP methods a path item may carry.
pub const METHODS: [&'static str; 8] = ["get", "put", "post", "delete", "options", "head", "patch", "trace"];

/// The eight methods, as text, in the order of `METHODS`.
pub open spec fn methods() -> Seq<Seq<char>> {
    seq!["get"@, "put"@, "post"@, "delete"@, "options"@, "head"@, "patch"@, "trace"@]
}

/// The method at `k` of `METHODS`.
pub fn method_at(k: usize) -> (m: &'static str)
    requires
        k < 8,
    ensures
        m@ == methods()[k as int],
{
    METHODS[k]
}

/// One operation a description declares: the method and path template it is
/// reached by, and its `operationId` when it has one.
#[derive(Clone, Debug, PartialEq, Eq)]
pub struct Declared {
    pub method: String,
    pub template: String,
    pub operation_id: Option<String>,
}

/// A declared operation as text.
pub ghost struct DeclaredView {
    pub method: Seq<char>,
    pub template: Seq<char>,
    pub operation_id: Option<Seq<char>>,
}

impl View for Declared {
    type V = DeclaredView;

    open spec fn view(&self) -> DeclaredView {
        DeclaredView {
            method: self.method@,
            template: self.template@,
            operation_id: match self.operation_id {
                Some(id) => Some(id@),
                None => None,
            },
        }
    }
}

/// The declared operations of `operations`, as text.
pub open spec fn declared_views(operations: Seq<Declared>) -> Seq<DeclaredView> {
    operations.map_values(|d: Declared| d@)
}

/// A description's title and operations.
#[derive(Clone, Debug, PartialEq, Eq)]
pub struct Description {
    title: String,
    operations: Vec<Declared>,
}

/// A description as text.
pub ghost struct DescriptionView {
    pub title: Seq<char>,
    pub operations: Seq<DeclaredView>,
}

impl View for Description {
    type V = DescriptionView;

    closed spec fn view(&self) -> DescriptionView {
        DescriptionView { title: self.title@, operations: declared_views(self.operations@) }
    }
}

/// The operation that `item` declares with the method at `k` of `METHODS`.
pub open spec fn method_declared(template: Seq<char>, item: Seq<(String, Json)>, k: int) -> Seq<
    DeclaredView,
> {
    match lookup(item, methods()[k]) {
        Some(operation) => seq![
            DeclaredView {
                method: methods()[k],
                template,
                operation_id: text_of(member(operation, "operationId"@)),
            },
        ],
        None => Seq::empty(),
    }
}

/// The operations that the path item `item` declares with the first `k`
/// methods of `METHODS`.
pub open spec fn methods_declared(template: Seq<char>, item: Seq<(String, Json)>, k: int) -> Seq<
    DeclaredView,
>
    decreases k,
{
    if k <= 0 {
        Seq::empty()
    } else {
        methods_declared(template, item, k - 1) + method_declared(template, item, k - 1)
    }
}

/// The operations under the path template `template`: those of each
/// method, when `item` is an object.
pub open spec fn item_declared(template: Seq<char>, item: Json) -> Seq<DeclaredView> {
    match item {
        Json::Object(entries) => methods_declared(template, entries@, 8),
        _ => Seq::empty(),
    }
}

/// The operations under `paths`, path by path.
pub open spec fn paths_declared(paths: Seq<(String, Json)>) -> Seq<DeclaredView>
    decreases paths.len(),
{
    if paths.len() == 0 {
        Seq::empty()
    } else {
        paths_declared(paths.drop_last()) + item_declared(paths.last().0@, paths.last().1)
    }
}

/// What `document` declares: the string at `/info/title` (or nothing), and
/// the operations of `paths` when it is an object.
pub open spec fn description_of(document: Json) -> DescriptionView {
    DescriptionView {
        title: match json_pointer(document, "/info/title"@) {
            Some(Json::Str(t)) => t@,
            _ => Seq::empty(),
        },
        operations: match member(document, "paths"@) {
            Some(Json::Object(paths)) => paths_declared(paths@),
            _ => Seq::empty(),
        },
    }
}

impl Default for Description {
    fn default() -> (d: Self)
        ensures
            d@ == (DescriptionView { title: Seq::empty(), operations: Seq::empty() }),
    {
        let d = Description { title: String::new(), operations: Vec::new() };
        assert(declared_views(d.operations@) =~= Seq::empty());
        d
    }
}

/// Appends to `operations` what `item` declares under `template`.
fn declare_item(operations: &mut Vec<Declared>, template: &String, item: &Json)
    ensures
        declared_views(final(operations)@) == declared_views(old(operations)@) + item_declared(
            template@,
            *item,
        ),
{
    let ghost start = declared_views(operations@);
    if let Json::Object(entries) = item {
        let mut k: usize = 0;
        while k < 8
            invariant
                k <= 8,
                declared_views(operations@) == start + methods_declared(template@, entries@, k as int),
            decreases 8 - k,
        {
            let method = method_at(k);
            if let Some(operation) = lookup_entry(entries, method) {
                let operation_id = match member_json(operation, "operationId") {
                    Some(Json::Str(id)) => Some(id.clone()),
                    _ => None,
                };
                let declared = Declared {
                    method: String::from_str(method),
                    template: template.clone(),
                    operation_id,
                };
                let ghost before = operations@;
                operations.push(declared);
                assert(declared_views(operations@) =~= declared_views(before).push(declared@));
            }
            assert(methods_declared(template@, entries@, k + 1) =~= methods_declared(
                template@,
                entries@,
                k as int,
            ) + method_declared(template@, entries@, k as int));
            k += 1;
        }
    } else {
        assert(declared_views(operations@) =~= start + Seq::empty());
    }
}

impl Description {
    /// Read `text`, a description in JSON.
    ///
    /// # Errors
    /// The text is not JSON.
    pub fn parse(text: &str) -> (r: Result<Self, ContractError>)
        ensures
            match r {
                Ok(d) => serde_json_from_str(text@) matches Ok(document) && d@ == description_of(
                    document,
                ) && json_well_formed(document),
                Err(e) => serde_json_from_str(text@) matches Err(m) && e.message@ == "not valid JSON: "@
                    + m,
            },
    {
        match parse_json_text(text) {
            Ok(document) => Ok(Self::of(&document)),
            Err(error) => {
                let mut message = String::from_str("not valid JSON: ");
                message.append(error.as_str());
                Err(ContractError::new(message))
            },
        }
    }

    /// What `document` declares. A document with no `paths` (a 3.1
    /// description of webhooks alone) declares no operation.
    pub fn of(document: &Json) -> (d: Self)
        requires
            json_well_formed(*document),
        ensures
            d@ == description_of(*document),
    {
        let title = match resolve_pointer(document, "/info/title") {
            Some(Json::Str(t)) => t,
            _ => String::new(),
        };
        let mut operations: Vec<Declared> = Vec::new();
        if let Some(Json::Object(paths)) = member_json(document, "paths") {
            let mut i: usize = 0;
            while i < paths.len()
                invariant
                    i <= paths@.len(),
                    declared_views(operations@) == paths_declared(paths@.take(i as int)),
                decreases paths@.len() - i,
            {
                declare_item(&mut operations, &paths[i].0, &paths[i].1);
                assert(paths@.take(i + 1).drop_last() =~= paths@.take(i as int));
                i += 1;
            }
            assert(paths@.take(paths@.len() as int) =~= paths@);
        } else {
            assert(declared_views(operations@) =~= Seq::empty());
        }
        Description { title, operations }
    }

    /// `info.title`, or empty when the description has none.
    pub fn title(&self) -> (t: &str)
        ensures
            t@ == self@.title,
    {
        self.title.as_str()
    }

    /// Every operation, in the order of the paths and then of `METHODS`.
    pub fn operations(&self) -> (o: &[Declared])
        ensures
            declared_views(o@) == self@.operations,
    {
        self.operations.as_slice()
    }
}

} // verus!
