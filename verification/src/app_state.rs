//! The names under which the application keeps its secrets.
use vstd::prelude::*;

verus! {

/// The secret-store keys of the local token, the Feishu webhook and its signing secret.
#[derive(Debug, Clone)]
pub struct RuntimeConfig {
    pub token_key: String,
    pub webhook_key: String,
    pub sign_secret_key: String,
}

impl Default for RuntimeConfig {
    /// Every key empty.
    fn default() -> (r: Self)
        ensures
            r.token_key@ == Seq::<char>::empty(),
            r.webhook_key@ == Seq::<char>::empty(),
            r.sign_secret_key@ == Seq::<char>::empty(),
    {
        RuntimeConfig { token_key: String::new(), webhook_key: String::new(), sign_secret_key: String::new() }
    }
}

impl RuntimeConfig {
    /// The keys the application uses.
    pub fn standard() -> (r: Self)
        ensures
            r.token_key@ == "notice-local-token"@,
            r.webhook_key@ == "notice-feishu-webhook"@,
            r.sign_secret_key@ == "notice-feishu-sign-secret"@,
    {
        RuntimeConfig {
            token_key: String::from_str("notice-local-token"),
            webhook_key: String::from_str("notice-feishu-webhook"),
            sign_secret_key: String::from_str("notice-feishu-sign-secret"),
        }
    }
}

} // verus!
