use vstd::prelude::*;

use crate::error::ToxicUpdateError;
use crate::proxy::ProxyValidateError;

verus! {

#[verifier::external_type_specification]
#[verifier::external_body]
pub struct ExIoErrorKind(std::io::ErrorKind);

/// The kind of resource an error is about
#[derive(Debug, Clone, Copy, PartialEq, Eq, Structural)]
pub enum ResourceKind {
    /// A toxic
    Toxic,
    /// A proxy
    Proxy,
}

impl ResourceKind {
    /// The text of this kind, as its `Display` writes it
    pub fn to_string(&self) -> (r: String)
        ensures
            r@ == (match *self {
                ResourceKind::Toxic => "toxic"@,
                ResourceKind::Proxy => "proxy"@,
            }),
    {
        match self {
            ResourceKind::Toxic => "toxic".to_owned(),
            ResourceKind::Proxy => "proxy".to_owned(),
        }
    }
}

/// The errors of the store of proxies
#[derive(Debug, Clone, Copy, PartialEq)]
pub enum StoreError {
    /// Missing required field
    InvalidProxyConfig(ProxyValidateError),
    /// An item with this name already exists
    AlreadyExists,
    /// The proxy or toxic was not found
    NotFound(ResourceKind),
    /// An I/O error of this kind happened
    IoError(std::io::ErrorKind),
    /// The proxy task has ended
    ProxyClosed,
    /// Internal server error
    Other,
}

/// The HTTP status code that the API answers an error with
pub open spec fn status_code_of(err: StoreError) -> u16 {
    match err {
        StoreError::InvalidProxyConfig(..) => 400,
        StoreError::AlreadyExists => 409,
        StoreError::NotFound(..) => 404,
        StoreError::IoError(..) | StoreError::ProxyClosed | StoreError::Other => 500,
    }
}

impl StoreError {
    /// The HTTP status code that the API answers this error with: 400 for an
    /// invalid configuration, 409 for a conflict, 404 when not found, 500 else
    pub fn status_code(&self) -> (r: u16)
        ensures
            r == status_code_of(*self),
    {
        match self {
            StoreError::InvalidProxyConfig(..) => 400,
            StoreError::AlreadyExists => 409,
            StoreError::NotFound(..) => 404,
            StoreError::ProxyClosed | StoreError::IoError(..) | StoreError::Other => 500,
        }
    }
}

impl From<ProxyValidateError> for StoreError {
    fn from(err: ProxyValidateError) -> (r: Self) {
        StoreError::InvalidProxyConfig(err)
    }
}

impl vstd::std_specs::convert::FromSpecImpl<ProxyValidateError> for StoreError {
    open spec fn obeys_from_spec() -> bool {
        true
    }

    open spec fn from_spec(v: ProxyValidateError) -> StoreError {
        StoreError::InvalidProxyConfig(v)
    }
}

impl From<ToxicUpdateError> for StoreError {
    fn from(err: ToxicUpdateError) -> (r: Self) {
        match err {
            ToxicUpdateError::NotFound => StoreError::NotFound(ResourceKind::Toxic),
            ToxicUpdateError::AlreadyExists => StoreError::AlreadyExists,
            ToxicUpdateError::Other => StoreError::Other,
        }
    }
}

impl vstd::std_specs::convert::FromSpecImpl<ToxicUpdateError> for StoreError {
    open spec fn obeys_from_spec() -> bool {
        true
    }

    open spec fn from_spec(v: ToxicUpdateError) -> StoreError {
        update_error_spec(v)
    }
}

/// The store error for a toxic update error
pub open spec fn update_error_spec(err: ToxicUpdateError) -> StoreError {
    match err {
        ToxicUpdateError::NotFound => StoreError::NotFound(ResourceKind::Toxic),
        ToxicUpdateError::AlreadyExists => StoreError::AlreadyExists,
        ToxicUpdateError::Other => StoreError::Other,
    }
}

/// What a request to change the toxics of a proxy answers, from the reply of
/// the proxy: success, the store error for the update error it reported, or
/// `ProxyClosed` when the proxy gave no reply
pub open spec fn toxic_reply_result(reply: Option<Result<(), ToxicUpdateError>>) -> Result<
    (),
    StoreError,
> {
    match reply {
        Some(Ok(())) => Ok(()),
        Some(Err(e)) => Err(update_error_spec(e)),
        None => Err(StoreError::ProxyClosed),
    }
}

/// The answer to a request to change the toxics of a proxy, from the reply of
/// the proxy (`None` when the proxy closed before it replied)
pub fn store_result_of_reply(reply: Option<Result<(), ToxicUpdateError>>) -> (r: Result<
    (),
    StoreError,
>)
    ensures
        r == toxic_reply_result(reply),
{
    match reply {
        Some(Ok(())) => Ok(()),
        Some(Err(e)) => Err(StoreError::from(e)),
        None => Err(StoreError::ProxyClosed),
    }
}

/// The errors of proxy events
#[derive(Debug, Clone, Copy, PartialEq, Eq, Structural)]
pub enum ProxyEventError {
    /// The proxy or toxic was not found
    NotFound(ResourceKind),
}

} // verus!
