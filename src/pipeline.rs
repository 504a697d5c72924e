use vstd::prelude::*;
use crate::error::ProxyError;
use crate::headers::{
    all_headers_ok, first_bad_header, headers_translated, response_headers_translated,
    translate_request_headers, translate_response_headers,
};
use crate::method::{method_token, HttpMethod};
use crate::rewrite::{
    lemma_rewritten_url_text, outbound_url_text, rewritable, rewrite, UrlParts,
};

verus! {

/// The request to send upstream, built before any body byte is read. Its
/// body, read in full, is attached by whoever sends it.
#[derive(Debug)]
pub struct OutboundRequest {
    pub method: HttpMethod,
    /// The outbound client's name for the method.
    pub method_token: &'static str,
    pub url: String,
    pub headers: Vec<(String, String)>,
}

/// Status and headers of the response handed back to the client; the body
/// follows through a `BodyRelay`.
#[derive(Debug)]
pub struct ResponseHead {
    pub status: u16,
    pub headers: Vec<(String, String)>,
}

/// Builds the outbound request from the inbound method, URL and headers, in
/// that order: the URL is rewritten first, then the method mapped, then the
/// headers translated. Any failure stops the pipeline, so no request is sent:
/// a URL that cannot be rewritten gives `UrlRewrite`; otherwise the first
/// header that fails validation gives `HeaderTranslation` with its name.
pub fn prepare_request(method: HttpMethod, url: &UrlParts, headers: &Vec<(String, String)>) -> (r: Result<
    OutboundRequest,
    ProxyError,
>)
    ensures
        r is Ok <==> rewritable(*url) && all_headers_ok(headers@),
        r matches Ok(o) ==> {
            &&& o.method == method
            &&& o.method_token@ == method_token(method)
            &&& o.url@ == outbound_url_text(*url)
            &&& headers_translated(headers@, o.headers@)
        },
        r matches Err(e) ==> if !rewritable(*url) {
            e is UrlRewrite
        } else {
            exists|k: int|
                first_bad_header(headers@, k) && e == (ProxyError::HeaderTranslation { name: headers@[k].0 })
        },
{
    let target = match rewrite(url) {
        Ok(t) => t,
        Err(e) => return Err(e),
    };
    proof {
        lemma_rewritten_url_text(*url, target);
    }
    let token = method.outbound_token();
    let translated = match translate_request_headers(headers) {
        Ok(h) => h,
        Err(e) => return Err(e),
    };
    Ok(OutboundRequest { method, method_token: token, url: target.to_url_string(), headers: translated })
}

/// The response head for the client: the upstream status as it is, and the
/// upstream headers less those whose value cannot be read as text. Never fails.
pub fn translate_response(status: u16, headers: &Vec<(String, Vec<u8>)>) -> (r: ResponseHead)
    ensures
        r.status == status,
        response_headers_translated(headers@, r.headers@),
{
    ResponseHead { status, headers: translate_response_headers(headers) }
}

} // verus!
