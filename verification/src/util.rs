//! Small string helpers shared by the protocol core.

use vstd::prelude::*;
use vstd::string::StringExecFns;

verus! {

/// The registry key of a client: its class and instance joined by a dash.
pub open spec fn spec_global_id(client_class: Seq<char>, client_instance: Seq<char>) -> Seq<char> {
    client_class + seq!['-'] + client_instance
}

/// Builds the global id `client_class-client_instance`.
pub fn get_global_id(client_class: &str, client_instance: &str) -> (r: String)
    ensures
        r@ == spec_global_id(client_class@, client_instance@),
{
    let mut s = client_class.to_owned();
    s.append("-");
    s.append(client_instance);
    proof {
        reveal_strlit("-");
        assert(s@ =~= spec_global_id(client_class@, client_instance@));
    }
    s
}

/// String-slice equality, stated over the character views.
pub fn str_eq(a: &str, b: &str) -> (r: bool)
    ensures
        r == (a@ == b@),
{
    let av = a.to_owned();
    let bv = b.to_owned();
    av == bv
}

} // verus!
