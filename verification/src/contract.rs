//! What a content contract answers with: its descriptor, the issues a
//! validation finds, and the error of a reference that names no contract.

use vstd::prelude::*;

verus! {

/// Why a contract could not be loaded or a document not read.
#[derive(Clone, Debug, PartialEq, Eq)]
pub struct ContractError {
    pub message: String,
}

impl ContractError {
    /// The error that says `message`.
    pub fn new(message: String) -> (e: Self)
        ensures
            e.message@ == message@,
    {
        ContractError { message }
    }
}

/// The identifier a Location names a contract by.
#[derive(Clone, Debug, PartialEq, Eq)]
pub struct ContractId(pub String);

/// What a contract is: its identifier, the version of its rules, and the
/// media type of the representation it holds documents to.
#[derive(Clone, Debug, PartialEq, Eq)]
pub struct ContractDescriptor {
    pub id: ContractId,
    pub version: String,
    pub representation: String,
}

/// The descriptor as text.
pub ghost struct DescriptorView {
    pub id: Seq<char>,
    pub version: Seq<char>,
    pub representation: Seq<char>,
}

impl View for ContractDescriptor {
    type V = DescriptorView;

    open spec fn view(&self) -> DescriptorView {
        DescriptorView { id: self.id.0@, version: self.version@, representation: self.representation@ }
    }
}

/// One departure of a document from a contract: a code that classifies it,
/// a message, and where in the document it stands, when it stands anywhere.
#[derive(Clone, Debug, PartialEq, Eq)]
pub struct ValidationIssue {
    pub code: String,
    pub message: String,
    pub path: Option<String>,
}

/// An issue as text.
pub ghost struct IssueView {
    pub code: Seq<char>,
    pub message: Seq<char>,
    pub path: Option<Seq<char>>,
}

/// The text of what may be a string.
pub open spec fn opt_text(s: Option<String>) -> Option<Seq<char>> {
    match s {
        Some(t) => Some(t@),
        None => None,
    }
}

impl View for ValidationIssue {
    type V = IssueView;

    open spec fn view(&self) -> IssueView {
        IssueView { code: self.code@, message: self.message@, path: opt_text(self.path) }
    }
}

/// The issues of `issues`, as text.
pub open spec fn issue_views(issues: Seq<ValidationIssue>) -> Seq<IssueView> {
    issues.map_values(|i: ValidationIssue| i@)
}

/// The outcome of a validation: whether the document holds, and every
/// issue found in it.
#[derive(Clone, Debug, PartialEq, Eq)]
pub struct ValidationResult {
    pub valid: bool,
    pub issues: Vec<ValidationIssue>,
}

/// The issue of `code`, `message` and `path`.
pub open spec fn issue_of(code: Seq<char>, message: Seq<char>, path: Option<Seq<char>>) -> IssueView {
    IssueView { code, message, path }
}

/// The issue of `code`, `message` and `path`.
pub fn issue(code: &str, message: &str, path: Option<String>) -> (i: ValidationIssue)
    ensures
        i@ == issue_of(code@, message@, opt_text(path)),
{
    ValidationIssue { code: String::from_str(code), message: String::from_str(message), path }
}

/// The outcome that reports `issues`: valid exactly when there is none.
pub fn result(issues: Vec<ValidationIssue>) -> (r: ValidationResult)
    ensures
        r.issues@ == issues@,
        r.valid == (issues@.len() == 0),
{
    ValidationResult { valid: issues.is_empty(), issues }
}

} // verus!
