//! The configuration the pipeline runs under. Loading and writing the file
//! itself is I/O that lives outside the library; the values and their
//! defaults are defined here.

use vstd::prelude::*;

verus! {

/// Where and how the jobs API is called.
#[derive(Debug)]
pub struct AmazonConfig {
    pub api_url: String,
    pub api_token: String,
    pub country: String,
    pub locale: String,
    pub page_size: usize,
}

/// Where notifications are delivered.
#[derive(Debug)]
pub struct TelegramConfig {
    pub bot_token: String,
    pub chat_id: String,
}

/// Where and how often the seen set is written to disk.
#[derive(Debug)]
pub struct PersistenceConfig {
    pub seen_jobs_file: String,
    pub persist_interval_secs: u64,
}

/// How the fetch load is spread and retried.
#[derive(Debug)]
pub struct RateLimitingConfig {
    pub requests_per_second: usize,
    pub delay_between_requests_ms: u64,
    pub retry_base_ms: u64,
    pub retry_max_delay_ms: u64,
    pub max_retries: usize,
}

/// The whole configuration.
#[derive(Debug)]
pub struct Config {
    pub amazon: AmazonConfig,
    pub telegram: TelegramConfig,
    pub persistence: PersistenceConfig,
    pub rate_limiting: RateLimitingConfig,
}

impl Default for Config {
    /// The configuration written out when none exists yet: placeholder
    /// credentials and moderate rate limits.
    fn default() -> (c: Config)
        ensures
            c.amazon.api_url@ == "https://e5mquma77feepi2.amazonaws.com/graphql"@,
            c.amazon.api_token@ == "YOUR_API_TOKEN"@,
            c.amazon.country@ == "Canada"@,
            c.amazon.locale@ == "en-US"@,
            c.amazon.page_size == 100,
            c.telegram.bot_token@ == "YOUR_BOT_TOKEN"@,
            c.telegram.chat_id@ == "YOUR_CHAT_ID"@,
            c.persistence.seen_jobs_file@ == "seen_jobs.txt"@,
            c.persistence.persist_interval_secs == 300,
            c.rate_limiting.requests_per_second == 2,
            c.rate_limiting.delay_between_requests_ms == 300,
            c.rate_limiting.retry_base_ms == 500,
            c.rate_limiting.retry_max_delay_ms == 10000,
            c.rate_limiting.max_retries == 5,
    {
        Config {
            amazon: AmazonConfig {
                api_url: String::from_str("https://e5mquma77feepi2.amazonaws.com/graphql"),
                api_token: String::from_str("YOUR_API_TOKEN"),
                country: String::from_str("Canada"),
                locale: String::from_str("en-US"),
                page_size: 100,
            },
            telegram: TelegramConfig {
                bot_token: String::from_str("YOUR_BOT_TOKEN"),
                chat_id: String::from_str("YOUR_CHAT_ID"),
            },
            persistence: PersistenceConfig {
                seen_jobs_file: String::from_str("seen_jobs.txt"),
                persist_interval_secs: 300,
            },
            rate_limiting: RateLimitingConfig {
                requests_per_second: 2,
                delay_between_requests_ms: 300,
                retry_base_ms: 500,
                retry_max_delay_ms: 10000,
                max_retries: 5,
            },
        }
    }
}

} // verus!
