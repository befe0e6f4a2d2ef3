//! Process-wide configuration, immutable after startup.

use vstd::prelude::*;

verus! {

/// Everything the service reads at startup: storage pool size, credential
/// and transcript lifetimes, and the completion provider's endpoint, key,
/// model and fixed system directive.
#[derive(Debug)]
pub struct ServerConfig {
    pub db_pool_size: u32,
    pub jwt_expire_days: u64,
    pub chat_expire_days: u64,
    pub api_base: String,
    pub api_key: String,
    pub model: String,
    pub sys_prompt: String,
}

impl Default for ServerConfig {
    /// The template written on first startup, to be filled in by hand.
    fn default() -> (r: Self)
        ensures
            r.db_pool_size == 10,
            r.jwt_expire_days == 30,
            r.chat_expire_days == 30,
            r.api_base@ == "https://api.openai.com/v1"@,
            r.api_key@ == "<API Key>"@,
            r.model@ == "chatgpt-4o-latest"@,
            r.sys_prompt@ == "You are a helpful assistant."@,
    {
        ServerConfig {
            db_pool_size: 10,
            jwt_expire_days: 30,
            chat_expire_days: 30,
            api_base: "https://api.openai.com/v1".to_owned(),
            api_key: "<API Key>".to_owned(),
            model: "chatgpt-4o-latest".to_owned(),
            sys_prompt: "You are a helpful assistant.".to_owned(),
        }
    }
}

} // verus!
