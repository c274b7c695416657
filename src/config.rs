use vstd::prelude::*;

verus! {

/// Process-start settings: the database connection string and the identity
/// provider's issuer and audience.
#[derive(Clone, Debug)]
pub struct AppConfig {
    pub database_url: String,
    pub zitadel_issuer: String,
    pub zitadel_audience: String,
}

} // verus!
