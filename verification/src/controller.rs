//! The account controller: declares the endpoint set of the account resource.
//!
//! A controller is a pure function returning its (prefix, endpoint-set) pair;
//! it holds no state and touches no shared table. Assembly collects the pairs
//! of all controllers into the route registry and mounts them.

use vstd::prelude::*;
use crate::registry::{Endpoint, Method};

verus! {

/// The account resource's endpoint table: create, read, update and delete,
/// in that order, under the paths the HTTP interface fixes.
pub open spec fn account_endpoints(eps: Seq<Endpoint>) -> bool {
    &&& eps.len() == 4
    &&& eps[0].method == Method::Post && eps[0].path@ == "/"@ && eps[0].handler@ == "create"@
    &&& eps[1].method == Method::Get && eps[1].path@ == "/<id>"@ && eps[1].handler@ == "read"@
    &&& eps[2].method == Method::Put && eps[2].path@ == "/<id>"@ && eps[2].handler@ == "update"@
    &&& eps[3].method == Method::Delete && eps[3].path@ == "/<id>"@ && eps[3].handler@
        == "delete"@
}

/// Returns the account controller's registration pair: the prefix it claims
/// and its ordered endpoint descriptors.
pub fn endpoints() -> (r: (String, Vec<Endpoint>))
    ensures
        r.0@ == "/"@,
        account_endpoints(r.1@),
{
    let mut eps: Vec<Endpoint> = Vec::new();
    eps.push(Endpoint {
        method: Method::Post,
        path: String::from_str("/"),
        handler: String::from_str("create"),
    });
    eps.push(Endpoint {
        method: Method::Get,
        path: String::from_str("/<id>"),
        handler: String::from_str("read"),
    });
    eps.push(Endpoint {
        method: Method::Put,
        path: String::from_str("/<id>"),
        handler: String::from_str("update"),
    });
    eps.push(Endpoint {
        method: Method::Delete,
        path: String::from_str("/<id>"),
        handler: String::from_str("delete"),
    });
    (String::from_str("/"), eps)
}

} // verus!
