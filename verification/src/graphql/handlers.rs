//! What the GraphQL handlers compute before they answer.
use vstd::prelude::*;
use vstd::string::StringExecFns;

verus! {

/// The address of the GraphQL endpoint on a host, which the GraphiQL page
/// is told to query.
pub fn graphql_endpoint(host: &str) -> (url: String)
    ensures
        url@ == "http://"@ + host@ + "/graphql"@,
{
    let mut url = String::from_str("http://");
    url.append(host);
    url.append("/graphql");
    url
}

} // verus!
