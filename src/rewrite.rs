use vstd::prelude::*;
use crate::error::ProxyError;

verus! {

/// The host that every request is forwarded to.
pub const UPSTREAM_HOST: &'static str = "generativelanguage.googleapis.com";

/// The port that the secure scheme uses when none is written.
pub const HTTPS_DEFAULT_PORT: u16 = 443;

/// A parsed URL, component by component, as the URL standard serializes it.
#[derive(Debug, Clone)]
pub struct UrlParts {
    pub scheme: String,
    pub username: String,
    pub password: Option<String>,
    pub host: Option<String>,
    pub port: Option<u16>,
    pub path: String,
    pub query: Option<String>,
    pub fragment: Option<String>,
    /// The URL has an opaque path (as `mailto:` or `data:` URLs do), so no
    /// host can be given to it.
    pub cannot_be_a_base: bool,
}

/// The schemes that the URL standard calls special.
pub open spec fn is_special_scheme(s: Seq<char>) -> bool {
    s == "http"@ || s == "https"@ || s == "ws"@ || s == "wss"@ || s == "ftp"@ || s == "file"@
}

/// Whether the host and then the scheme of `u` can be replaced by the
/// upstream host and the secure scheme: only a URL that has a base, under a
/// special scheme, allows both.
pub open spec fn rewritable(u: UrlParts) -> bool {
    !u.cannot_be_a_base && is_special_scheme(u.scheme@)
}

/// The port that remains once the scheme is `https`: its default is dropped.
pub open spec fn kept_port(port: Option<u16>) -> Option<u16> {
    if port == Some(HTTPS_DEFAULT_PORT) {
        None
    } else {
        port
    }
}

/// `r` is `u` sent to the upstream host over the secure scheme: path, query,
/// fragment and credentials unchanged, and an explicit port kept unless it is
/// the secure scheme's default.
pub open spec fn rewritten(u: UrlParts, r: UrlParts) -> bool {
    &&& r.scheme@ == "https"@
    &&& r.host matches Some(h) && h@ == UPSTREAM_HOST@
    &&& r.port == kept_port(u.port)
    &&& r.path@ == u.path@
    &&& r.query == u.query
    &&& r.fragment == u.fragment
    &&& r.username@ == u.username@
    &&& r.password == u.password
    &&& !r.cannot_be_a_base
}

/// The decimal digit `d`.
pub open spec fn digit_char(d: nat) -> char {
    if d == 0 { '0' } else if d == 1 { '1' } else if d == 2 { '2' } else if d == 3 { '3' }
    else if d == 4 { '4' } else if d == 5 { '5' } else if d == 6 { '6' } else if d == 7 { '7' }
    else if d == 8 { '8' } else { '9' }
}

/// `n` written in decimal, without leading zeros.
pub open spec fn decimal(n: nat) -> Seq<char>
    decreases n,
{
    if n < 10 {
        seq![digit_char(n)]
    } else {
        decimal(n / 10).push(digit_char(n % 10))
    }
}

/// `text` preceded by `sep`, or nothing when absent.
pub open spec fn optional_text(sep: Seq<char>, text: Option<String>) -> Seq<char> {
    match text {
        Some(t) => sep + t@,
        None => Seq::empty(),
    }
}

/// The credentials and the `@` that ends them, when there are any.
pub open spec fn userinfo_text(u: UrlParts) -> Seq<char> {
    if u.username@.len() > 0 || u.password is Some {
        u.username@ + optional_text(":"@, u.password) + "@"@
    } else {
        Seq::empty()
    }
}

/// `:` and the port, when one is written.
pub open spec fn port_text(port: Option<u16>) -> Seq<char> {
    match port {
        Some(p) => ":"@ + decimal(p as nat),
        None => Seq::empty(),
    }
}

/// `//`, credentials, host and port, when the URL has a host.
pub open spec fn authority_text(u: UrlParts) -> Seq<char> {
    match u.host {
        Some(h) => "//"@ + userinfo_text(u) + h@ + port_text(u.port),
        None => Seq::empty(),
    }
}

/// The serialization of `u`.
pub open spec fn url_text(u: UrlParts) -> Seq<char> {
    u.scheme@ + ":"@ + authority_text(u) + u.path@ + optional_text("?"@, u.query) + optional_text(
        "#"@,
        u.fragment,
    )
}

fn digit_str(d: u16) -> (r: &'static str)
    requires
        d < 10,
    ensures
        r@ == seq![digit_char(d as nat)],
{
    proof {
        reveal_strlit("0");
        reveal_strlit("1");
        reveal_strlit("2");
        reveal_strlit("3");
        reveal_strlit("4");
        reveal_strlit("5");
        reveal_strlit("6");
        reveal_strlit("7");
        reveal_strlit("8");
        reveal_strlit("9");
    }
    if d == 0 { "0" } else if d == 1 { "1" } else if d == 2 { "2" } else if d == 3 { "3" }
    else if d == 4 { "4" } else if d == 5 { "5" } else if d == 6 { "6" } else if d == 7 { "7" }
    else if d == 8 { "8" } else { "9" }
}

/// Appends `n` in decimal.
fn push_decimal(out: &mut String, n: u16)
    ensures
        final(out)@ == old(out)@ + decimal(n as nat),
    decreases n,
{
    if n < 10 {
        out.append(digit_str(n));
    } else {
        push_decimal(out, n / 10);
        out.append(digit_str(n % 10));
        assert(decimal(n as nat) == decimal((n / 10) as nat).push(digit_char((n % 10) as nat)));
    }
}

fn is_special(scheme: &String) -> (r: bool)
    ensures
        r == is_special_scheme(scheme@),
{
    *scheme == String::from_str("http") || *scheme == String::from_str("https")
        || *scheme == String::from_str("ws") || *scheme == String::from_str("wss")
        || *scheme == String::from_str("ftp") || *scheme == String::from_str("file")
}

impl UrlParts {
    /// The URL as text, in the URL standard's serialization.
    pub fn to_url_string(&self) -> (r: String)
        ensures
            r@ == url_text(*self),
    {
        let mut s = self.scheme.clone();
        s.append(":");
        if let Some(h) = &self.host {
            s.append("//");
            let ghost before_userinfo = s@;
            if self.username.as_str().unicode_len() > 0 || self.password.is_some() {
                s.append(self.username.as_str());
                if let Some(p) = &self.password {
                    s.append(":");
                    s.append(p.as_str());
                }
                s.append("@");
            }
            assert(s@ =~= before_userinfo + userinfo_text(*self));
            s.append(h.as_str());
            if let Some(p) = self.port {
                s.append(":");
                push_decimal(&mut s, p);
            }
        }
        assert(s@ =~= self.scheme@ + ":"@ + authority_text(*self));
        s.append(self.path.as_str());
        if let Some(q) = &self.query {
            s.append("?");
            s.append(q.as_str());
        }
        if let Some(f) = &self.fragment {
            s.append("#");
            s.append(f.as_str());
        }
        proof {
            assert(s@ =~= url_text(*self));
        }
        s
    }
}

/// Sends `url` to the upstream host over the secure scheme, keeping every
/// other component. Fails when the URL has no base (its host cannot be set)
/// or its scheme is not special (it cannot become `https`).
pub fn rewrite(url: &UrlParts) -> (r: Result<UrlParts, ProxyError>)
    ensures
        r is Ok <==> rewritable(*url),
        r matches Ok(out) ==> rewritten(*url, out),
        r matches Err(e) ==> e is UrlRewrite,
{
    if url.cannot_be_a_base || !is_special(&url.scheme) {
        return Err(ProxyError::UrlRewrite);
    }
    let port = if url.port == Some(HTTPS_DEFAULT_PORT) { None } else { url.port };
    Ok(UrlParts {
        scheme: String::from_str("https"),
        username: url.username.clone(),
        password: url.password.clone(),
        host: Some(String::from_str(UPSTREAM_HOST)),
        port,
        path: url.path.clone(),
        query: url.query.clone(),
        fragment: url.fragment.clone(),
        cannot_be_a_base: false,
    })
}

/// The text of the URL that `u` is forwarded to.
pub open spec fn outbound_url_text(u: UrlParts) -> Seq<char> {
    "https://"@ + userinfo_text(u) + UPSTREAM_HOST@ + port_text(kept_port(u.port)) + u.path@
        + optional_text("?"@, u.query) + optional_text("#"@, u.fragment)
}

/// Every rewritable URL, whatever its path and query, is forwarded to
/// `https://` and the upstream host, followed by its path, query and fragment
/// unchanged (after its credentials and a non-default port, where it has them).
pub proof fn lemma_rewritten_url_text(u: UrlParts, r: UrlParts)
    requires
        rewritten(u, r),
    ensures
        url_text(r) == outbound_url_text(u),
        u.port is None && userinfo_text(u) == Seq::<char>::empty() ==> url_text(r) == "https://"@
            + UPSTREAM_HOST@ + u.path@ + optional_text("?"@, u.query) + optional_text("#"@, u.fragment),
{
    reveal_strlit("https://");
    reveal_strlit("https");
    reveal_strlit(":");
    reveal_strlit("//");
    assert(userinfo_text(r) =~= userinfo_text(u));
    assert(url_text(r) =~= outbound_url_text(u));
    if u.port is None && userinfo_text(u) == Seq::<char>::empty() {
        assert(outbound_url_text(u) =~= "https://"@ + UPSTREAM_HOST@ + u.path@ + optional_text("?"@, u.query)
            + optional_text("#"@, u.fragment));
    }
}

} // verus!
