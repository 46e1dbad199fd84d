use vstd::prelude::*;

verus! {

/// The namespace a command works in when none is named.
pub open spec fn default_namespace() -> Seq<char> {
    seq!['m', 'a', 'n', 'u', 'a', 'l', ':', 'd', 'e', 'f', 'a', 'u', 'l', 't']
}

/// The namespace asked for, else `manual:default`.
pub fn namespace_or_default(namespace: Option<String>) -> (n: String)
    ensures
        namespace matches Some(x) ==> n@ == x@,
        namespace is None ==> n@ == default_namespace(),
{
    match namespace {
        Some(x) => x,
        None => {
            proof {
                reveal_strlit("manual:default");
                assert("manual:default"@ =~= default_namespace());
            }
            "manual:default".to_owned()
        },
    }
}

} // verus!
