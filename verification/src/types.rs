//! Small shared domain enums.
use vstd::prelude::*;

verus! {

/// How the client authenticates against the server.
#[derive(Clone, Copy, Debug, PartialEq, Eq, Structural)]
pub enum AuthType {
    Token,
    Oidc,
}

impl Default for AuthType {
    fn default() -> (r: Self)
        ensures
            r == AuthType::Token,
    {
        AuthType::Token
    }
}

/// Whether an HTTP proxy is reached through a subdomain or custom domains.
#[derive(Clone, Copy, Debug, PartialEq, Eq, Structural)]
pub enum DomainType {
    Sub,
    Custom,
}

impl Default for DomainType {
    fn default() -> (r: Self)
        ensures
            r == DomainType::Sub,
    {
        DomainType::Sub
    }
}

} // verus!
