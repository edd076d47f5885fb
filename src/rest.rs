use vstd::prelude::*;

verus! {

// The REST-like interface that a schema may describe. It covers a small
// subset of REST conventions: the forms only, not their meaning.

/// A whole interface: its functions.
#[derive(Clone, Debug, Default, PartialEq, Eq)]
pub struct RESTAPI {
    pub functions: Vec<RESTFunction>,
}

#[derive(Clone, Debug, Default, PartialEq, Eq)]
pub struct RESTFunction {
    pub comment: String,
    /// Custom annotations that steer code generation.
    pub attributes: Vec<String>,
    pub input: RESTInput,
    pub output: RESTOutput,
}

#[derive(Clone, Debug, Default, PartialEq, Eq)]
pub struct RESTInput {
    /// The HTTP method, such as `GET` or `POST`.
    pub method: String,
    /// The request path, such as `/order/item/{id}`.
    pub path: String,
    /// The name of the query message type.
    pub query: Option<String>,
    /// The name of the body message type.
    pub body: Option<String>,
}

#[derive(Clone, Debug, Default, PartialEq, Eq)]
pub struct RESTOutput {
    pub variants: Vec<RESTOutputVariant>,
}

#[derive(Clone, Debug, Default, PartialEq, Eq)]
pub struct RESTOutputVariant {
    pub status: u16,
    /// The name of the body message type.
    pub body: Option<String>,
    pub comment: String,
}

} // verus!
