//! Connections to the directory.
use vstd::prelude::*;

use crate::text::{chars_of, push_chars};

verus! {

/// Makes connections to the directory at the URL it holds.
#[derive(Debug, Clone)]
pub struct LDAPConnectionManager(pub String);

/// The name a connection binds as: `cn={user},{base}`.
pub open spec fn bind_dn_text(user: Seq<char>, base: Seq<char>) -> Seq<char> {
    "cn="@ + user + ","@ + base
}

impl LDAPConnectionManager {
    /// The name a new connection binds as, for the manager account `user` under
    /// the directory's `base`.
    pub fn bind_dn(user: &str, base: &str) -> (r: String)
        ensures
            r@ == bind_dn_text(user@, base@),
    {
        let mut s = String::new();
        let a = chars_of("cn=");
        push_chars(&mut s, a.as_slice());
        let u = chars_of(user);
        push_chars(&mut s, u.as_slice());
        let c = chars_of(",");
        push_chars(&mut s, c.as_slice());
        let b = chars_of(base);
        push_chars(&mut s, b.as_slice());
        s
    }
}

} // verus!
