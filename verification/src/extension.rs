//! Extension-parameter carriers for the opening handshake. The protocol
//! negotiation itself is not modeled; these only hold what was offered.

use vstd::prelude::*;

verus! {

/// One parameter of an extension offer, with its optional arguments.
pub struct Parameter {
    pub name: String,
    pub args: Option<Vec<(String, Option<String>)>>,
}

impl Parameter {
    pub fn new(name: String, args: Option<Vec<(String, Option<String>)>>) -> (r: Parameter)
        ensures
            r.name == name,
            r.args == args,
    {
        Parameter { name, args }
    }
}

/// One extension offer: its name and its parameters.
pub struct Extension {
    pub name: String,
    pub params: Vec<Parameter>,
}

impl Extension {
    pub fn new(name: String, params: Vec<Parameter>) -> (r: Extension)
        ensures
            r.name == name,
            r.params@ == params@,
    {
        Extension { name, params }
    }
}

} // verus!
