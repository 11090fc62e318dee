//! The error taxonomy of the login flow.
use vstd::prelude::*;

verus! {

/// Why a token-exchange response was rejected, as opposed to the call
/// not reaching the provider at all.
#[derive(Debug, Clone, PartialEq, Eq)]
pub enum ProtocolFault {
    /// The token endpoint answered with a non-success status.
    HttpStatus(u16),
    /// The response body was not the expected token document.
    MalformedBody,
}

/// Every failure the login and credential components can report.
#[derive(Debug, Clone, PartialEq, Eq)]
pub enum TdiError {
    /// Static client configuration is unusable; fatal at startup.
    Configuration,
    /// The default browser could not be opened; soft, the URL is printed.
    BrowserLaunch,
    /// The provider redirect never arrived in the allotted window.
    CallbackTimeout,
    /// The provider reported an authorization failure in the redirect.
    ProviderRedirect(Vec<u8>),
    /// The token-exchange call did not complete; candidate for a retry.
    TokenExchangeNetwork(Vec<u8>),
    /// The token endpoint answered, but not with a usable token.
    TokenExchangeProtocol(ProtocolFault),
    /// The credential file could not be written or parsed.
    CredentialStore,
    /// An authenticated command ran with no stored credential at all.
    NotAuthenticated,
}

impl TdiError {
    /// A short, stable name for the error class, for messages and logs.
    pub fn class_name(&self) -> (r: &'static str)
        ensures
            self is Configuration ==> r@ == "configuration error"@,
            self is BrowserLaunch ==> r@ == "browser launch failed"@,
            self is CallbackTimeout ==> r@ == "timed out waiting for the redirect"@,
            self is ProviderRedirect ==> r@ == "provider reported an authorization error"@,
            self is TokenExchangeNetwork ==> r@ == "token exchange did not reach the provider"@,
            self is TokenExchangeProtocol ==> r@ == "token exchange failed"@,
            self is CredentialStore ==> r@ == "credential store is unusable"@,
            self is NotAuthenticated ==> r@ == "not logged in"@,
    {
        match self {
            TdiError::Configuration => "configuration error",
            TdiError::BrowserLaunch => "browser launch failed",
            TdiError::CallbackTimeout => "timed out waiting for the redirect",
            TdiError::ProviderRedirect(_) => "provider reported an authorization error",
            TdiError::TokenExchangeNetwork(_) => "token exchange did not reach the provider",
            TdiError::TokenExchangeProtocol(_) => "token exchange failed",
            TdiError::CredentialStore => "credential store is unusable",
            TdiError::NotAuthenticated => "not logged in",
        }
    }
}

} // verus!
