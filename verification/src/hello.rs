//! The greeting service: the reply computation behind the RPC endpoint.
//! The transport lives outside the library; it hands the name in and sends
//! the message back.

use vstd::prelude::*;
use vstd::string::StringExecFns;

verus! {

#[derive(Default)]
pub struct MyHelloService;

impl MyHelloService {
    /// The reply for a request carrying `name`.
    pub fn hello_message(&self, name: &str) -> (r: String)
        ensures
            r@ == "Hello, "@ + name@ + "!"@,
    {
        let mut r = String::new();
        r.append("Hello, ");
        r.append(name);
        r.append("!");
        r
    }
}

} // verus!
