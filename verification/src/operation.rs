//! The operation a contract may be bound to: `POST /orders`, a method and a
//! path template, or `placeOrder`, an `operationId`.

use vstd::prelude::*;
use crate::contract::ContractError;
use crate::text::{
    ascii_lower, ascii_upper, chars_between, chars_of, index_of, index_of_char, lower_chars, trim,
    trim_chars, upper_chars, string_from_chars,
};

verus! {

/// The bound operation: a method and path, or an operation id.
#[derive(Clone, Debug, PartialEq, Eq)]
pub enum Operation {
    Route { method: String, path: String },
    Id(String),
}

/// An operation as text.
pub ghost enum OperationView {
    Route { method: Seq<char>, path: Seq<char> },
    Id(Seq<char>),
}

impl View for Operation {
    type V = OperationView;

    open spec fn view(&self) -> OperationView {
        match self {
            Operation::Route { method, path } => OperationView::Route { method: method@, path: path@ },
            Operation::Id(id) => OperationView::Id(id@),
        }
    }
}

/// What `{:?}` writes for a string: the text between double quotes, each
/// `"`, `\\`, tab, carriage return, line feed and NUL escaped with a
/// backslash, and each character that is not printable or is a grapheme
/// extender, wherever it stands, written `\u{…}`; `'` is left as it is.
pub uninterp spec fn str_debug(s: Seq<char>) -> Seq<char>;

/// `<str as Debug>::fmt`: `s` quoted and escaped as `{:?}` writes it.
#[verifier::external_body]
pub fn debug_text(s: &str) -> (r: String)
    ensures
        r@ == str_debug(s@),
{
    format!("{s:?}")
}

/// What `reference` names: after trimming, an error when nothing is left;
/// a route when a space parts a method from a path that begins with `/`
/// once trimmed, with the method in lower case; an error when a space parts
/// it otherwise; and an operation id when there is no space.
pub open spec fn parse_operation(reference: Seq<char>) -> Result<OperationView, Seq<char>> {
    let r = trim(reference);
    if r.len() == 0 {
        Err("an empty operation reference"@)
    } else {
        match index_of(r, ' ') {
            Some(i) => {
                let path = trim(r.skip(i + 1));
                if path.len() > 0 && path[0] == '/' {
                    Ok(OperationView::Route { method: ascii_lower(r.take(i)), path })
                } else {
                    Err(str_debug(r) + " is not METHOD /path or an operationId"@)
                }
            },
            None => Ok(OperationView::Id(r)),
        }
    }
}

/// How an operation is written back: `POST /orders`, the method in upper
/// case, or the operation id.
pub open spec fn reference_text(op: OperationView) -> Seq<char> {
    match op {
        OperationView::Route { method, path } => ascii_upper(method) + " "@ + path,
        OperationView::Id(id) => id,
    }
}

impl Operation {
    /// `POST /orders` or `placeOrder`.
    ///
    /// # Errors
    /// An empty reference, or a method with no path.
    pub fn parse(reference: &str) -> (r: Result<Self, ContractError>)
        ensures
            match r {
                Ok(op) => parse_operation(reference@) == Ok::<OperationView, Seq<char>>(op@),
                Err(e) => parse_operation(reference@) == Err::<OperationView, Seq<char>>(e.message@),
            },
    {
        let r = trim_chars(&chars_of(reference));
        if r.len() == 0 {
            return Err(ContractError::new(String::from_str("an empty operation reference")));
        }
        match index_of_char(&r, ' ') {
            Some(i) => {
                let path = trim_chars(&chars_between(&r, i + 1, r.len()));
                assert(r@.skip(i + 1) =~= r@.subrange(i + 1, r@.len() as int));
                if path.len() > 0 && path[0] == '/' {
                    let method = lower_chars(&chars_between(&r, 0, i));
                    assert(r@.take(i as int) =~= r@.subrange(0, i as int));
                    Ok(Operation::Route {
                        method: string_from_chars(&method),
                        path: string_from_chars(&path),
                    })
                } else {
                    let mut message = debug_text(string_from_chars(&r).as_str());
                    message.append(" is not METHOD /path or an operationId");
                    Err(ContractError::new(message))
                }
            },
            None => Ok(Operation::Id(string_from_chars(&r))),
        }
    }

    /// `POST /orders` for a route, the id for an operation id.
    pub fn reference(&self) -> (r: String)
        ensures
            r@ == reference_text(self@),
    {
        match self {
            Operation::Route { method, path } => {
                let mut r = string_from_chars(&upper_chars(&chars_of(method.as_str())));
                r.append(" ");
                r.append(path.as_str());
                r
            },
            Operation::Id(id) => id.clone(),
        }
    }
}

} // verus!
