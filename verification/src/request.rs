//! The binding request model: one generation request, parsed from a
//! comma-separated sequence of expression pieces into the fixed shape
//! `handle, "sql", arg, arg, ...`.

use vstd::prelude::*;

use crate::text::push_bytes;

verus! {

/// One comma-separated piece of a generation request: the source text of the
/// expression as written, and, when the expression is a string literal, its
/// value.
pub struct RequestPart {
    pub text: Vec<u8>,
    pub string_value: Option<Vec<u8>>,
}

/// Spec-level counterpart of `RequestPart`.
pub struct RequestPartV {
    pub text: Seq<u8>,
    pub string_value: Option<Seq<u8>>,
}

impl View for RequestPart {
    type V = RequestPartV;

    open spec fn view(&self) -> RequestPartV {
        RequestPartV {
            text: self.text@,
            string_value: match self.string_value {
                Some(v) => Some(v@),
                None => None,
            },
        }
    }
}

/// A generation request: the client handle expression, the SQL text (the
/// value of the request's string literal), and the ordered bound-parameter
/// expressions.  `args` order is significant: it is positional and must
/// match placeholder order in the SQL text.
pub struct BindingRequest {
    pub client: Vec<u8>,
    pub sql: Vec<u8>,
    pub args: Vec<Vec<u8>>,
}

/// Spec-level counterpart of `BindingRequest`.
pub struct BindingRequestV {
    pub client: Seq<u8>,
    pub sql: Seq<u8>,
    pub args: Seq<Seq<u8>>,
}

/// The views of a sequence of byte vectors.
pub open spec fn views_of(v: Seq<Vec<u8>>) -> Seq<Seq<u8>> {
    Seq::new(v.len(), |i: int| v[i]@)
}

impl View for BindingRequest {
    type V = BindingRequestV;

    open spec fn view(&self) -> BindingRequestV {
        BindingRequestV { client: self.client@, sql: self.sql@, args: views_of(self.args@) }
    }
}

/// A malformed request: the shape `handle, "sql", args...` was not met.
#[derive(Debug, PartialEq, Eq)]
pub enum RequestError {
    /// The request is empty: no client handle expression.
    MissingClient,
    /// Only one piece: the SQL string literal is missing.
    MissingSql,
    /// The second piece is not a string literal.
    SqlNotLiteral,
}

/// Copy a byte vector.
pub fn copy_bytes(v: &Vec<u8>) -> (r: Vec<u8>)
    ensures
        r@ == v@,
{
    let mut out: Vec<u8> = Vec::new();
    push_bytes(&mut out, v);
    proof {
        assert(out@ =~= v@);
    }
    out
}

/// Build a `BindingRequest` from the comma-separated pieces of a request:
/// the first piece is the client handle, the second must be a string literal
/// holding the SQL text, and every further piece is a bound-parameter
/// expression.  Fails, and generates nothing, when the handle or the SQL
/// literal is missing.
pub fn parse_request(parts: &Vec<RequestPart>) -> (r: Result<BindingRequest, RequestError>)
    ensures
        parts@.len() == 0 ==> r == Err::<BindingRequest, RequestError>(
            RequestError::MissingClient,
        ),
        parts@.len() == 1 ==> r == Err::<BindingRequest, RequestError>(RequestError::MissingSql),
        parts@.len() >= 2 && parts@[1]@.string_value is None ==> r == Err::<
            BindingRequest,
            RequestError,
        >(RequestError::SqlNotLiteral),
        parts@.len() >= 2 && parts@[1]@.string_value is Some ==> r is Ok,
        r matches Ok(req) ==> {
            &&& parts@.len() >= 2
            &&& req.client@ == parts@[0]@.text
            &&& parts@[1]@.string_value == Some(req.sql@)
            &&& req@.args.len() == parts@.len() - 2
            &&& forall|j: int|
                0 <= j < parts@.len() - 2 ==> #[trigger] req@.args[j] == parts@[j + 2]@.text
        },
{
    if parts.len() == 0 {
        return Err(RequestError::MissingClient);
    }
    if parts.len() == 1 {
        return Err(RequestError::MissingSql);
    }
    let sql: Vec<u8> = match &parts[1].string_value {
        Some(v) => copy_bytes(v),
        None => {
            return Err(RequestError::SqlNotLiteral);
        },
    };
    let client = copy_bytes(&parts[0].text);
    let mut args: Vec<Vec<u8>> = Vec::new();
    let mut i: usize = 2;
    while i < parts.len()
        invariant
            2 <= i <= parts@.len(),
            args@.len() == i - 2,
            forall|j: int| 0 <= j < i - 2 ==> #[trigger] args@[j]@ == parts@[j + 2]@.text,
        decreases parts@.len() - i,
    {
        args.push(copy_bytes(&parts[i].text));
        i = i + 1;
    }
    let req = BindingRequest { client, sql, args };
    proof {
        assert forall|j: int| 0 <= j < parts@.len() - 2 implies #[trigger] req@.args[j]
            == parts@[j + 2]@.text by {
            assert(req@.args[j] == req.args@[j]@);
        }
    }
    Ok(req)
}

} // verus!
