use vstd::prelude::*;

verus! {

/// The ways in which one proxied exchange can fail.
#[derive(Debug)]
pub enum ProxyError {
    /// The inbound URL does not allow its host or scheme to be replaced.
    UrlRewrite,
    /// An inbound header fails validation; the whole request is rejected.
    HeaderTranslation { name: String },
    /// The inbound body could not be read to its end.
    BodyRead,
    /// The outbound exchange could not be performed.
    Dispatch,
    /// An upstream body chunk could not be read; the relayed body ends early.
    StreamRead,
}

} // verus!
