use vstd::prelude::*;

verus! {

/// The request methods that the proxy accepts and forwards.
#[derive(Debug, Clone, Copy, PartialEq, Eq, Structural)]
pub enum HttpMethod {
    Get,
    Post,
    Put,
    Delete,
    Head,
    Connect,
    Options,
    Trace,
    Patch,
}

/// The token under which the outbound client knows each method.
pub open spec fn method_token(m: HttpMethod) -> Seq<char> {
    match m {
        HttpMethod::Get => "GET"@,
        HttpMethod::Post => "POST"@,
        HttpMethod::Put => "PUT"@,
        HttpMethod::Delete => "DELETE"@,
        HttpMethod::Head => "HEAD"@,
        HttpMethod::Connect => "CONNECT"@,
        HttpMethod::Options => "OPTIONS"@,
        HttpMethod::Trace => "TRACE"@,
        HttpMethod::Patch => "PATCH"@,
    }
}

impl HttpMethod {
    /// The outbound method for this inbound method; the table is total.
    pub fn outbound_token(&self) -> (r: &'static str)
        ensures
            r@ == method_token(*self),
    {
        match self {
            HttpMethod::Get => "GET",
            HttpMethod::Post => "POST",
            HttpMethod::Put => "PUT",
            HttpMethod::Delete => "DELETE",
            HttpMethod::Head => "HEAD",
            HttpMethod::Connect => "CONNECT",
            HttpMethod::Options => "OPTIONS",
            HttpMethod::Trace => "TRACE",
            HttpMethod::Patch => "PATCH",
        }
    }
}

proof fn reveal_method_tokens()
    ensures
        "GET"@ =~= seq!['G', 'E', 'T'],
        "POST"@ =~= seq!['P', 'O', 'S', 'T'],
        "PUT"@ =~= seq!['P', 'U', 'T'],
        "DELETE"@ =~= seq!['D', 'E', 'L', 'E', 'T', 'E'],
        "HEAD"@ =~= seq!['H', 'E', 'A', 'D'],
        "CONNECT"@ =~= seq!['C', 'O', 'N', 'N', 'E', 'C', 'T'],
        "OPTIONS"@ =~= seq!['O', 'P', 'T', 'I', 'O', 'N', 'S'],
        "TRACE"@ =~= seq!['T', 'R', 'A', 'C', 'E'],
        "PATCH"@ =~= seq!['P', 'A', 'T', 'C', 'H'],
{
    reveal_strlit("GET");
    reveal_strlit("POST");
    reveal_strlit("PUT");
    reveal_strlit("DELETE");
    reveal_strlit("HEAD");
    reveal_strlit("CONNECT");
    reveal_strlit("OPTIONS");
    reveal_strlit("TRACE");
    reveal_strlit("PATCH");
}

/// Distinct inbound methods map to distinct outbound methods, so the table,
/// total by construction, is a bijection onto the nine outbound tokens.
pub proof fn lemma_method_mapping_injective(a: HttpMethod, b: HttpMethod)
    ensures
        method_token(a) == method_token(b) ==> a == b,
{
    reveal_method_tokens();
    if method_token(a) == method_token(b) {
        let ta = method_token(a);
        let tb = method_token(b);
        assert(ta.len() == tb.len());
        assert(ta[0] == tb[0]);
        if ta.len() > 1 {
            assert(ta[1] == tb[1]);
        }
    }
}

} // verus!
