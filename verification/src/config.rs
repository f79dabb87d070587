//! What the configuration sets of the logic.

use vstd::prelude::*;
use crate::family::{ProductFamily, ProductFamilyView};
use crate::ratio::Ratio;

verus! {

/// Global scraping knobs.
#[derive(Debug, Clone, Copy, PartialEq)]
pub struct ScrapeConfig {
    /// A deal priced below `ratio × rolling median` gets `price-outlier`.
    pub outlier_ratio: Ratio,
    /// Stuffing score at or above this gets `possible-stuffing`.
    pub stuffing_threshold: Ratio,
    /// A known match is notified again once its price drops by this percentage.
    pub renotify_drop_pct: Ratio,
    /// Consecutive failures of one source before an alert fires.
    pub failure_alert_after: u32,
}

impl Default for ScrapeConfig {
    fn default() -> (r: Self)
        ensures
            r.outlier_ratio.deep_view() == (1int, 2int),
            r.stuffing_threshold.deep_view() == (1int, 4int),
            r.renotify_drop_pct.deep_view() == (5int, 1int),
            r.failure_alert_after == 5,
    {
        ScrapeConfig {
            outlier_ratio: Ratio::over(1, 2),
            stuffing_threshold: Ratio::over(1, 4),
            renotify_drop_pct: Ratio::over(5, 1),
            failure_alert_after: 5,
        }
    }
}

/// One declarative source: URL and CSS selectors, interpreted by the generic scraper
/// engine.
#[derive(Debug, PartialEq)]
pub struct SourceConfig {
    /// Stable id, e.g. "hddboard".
    pub id: String,
    /// Page to fetch. `{page}` is replaced by the page number, `{query}` by a search
    /// query.
    pub url: String,
    /// CSS selector for one listing container.
    pub item_selector: String,
    /// Selectors relative to the item container.
    pub title_selector: String,
    pub price_selector: String,
    /// Selector for the link (its `href` is taken); the item container itself where there
    /// is none.
    pub link_selector: Option<String>,
    /// Search queries, where the URL takes one.
    pub queries: Vec<String>,
    pub interval_minutes: u64,
    /// Minimum delay between requests to this source.
    pub delay_ms: u64,
    /// Most concurrent requests to this source.
    pub max_concurrency: usize,
    /// Pages fetched per tick.
    pub max_pages: u32,
}

/// What `SourceConfig` holds.
#[verifier::ext_equal]
pub struct SourceConfigView {
    pub id: Seq<char>,
    pub url: Seq<char>,
    pub item_selector: Seq<char>,
    pub title_selector: Seq<char>,
    pub price_selector: Seq<char>,
    pub link_selector: Option<Seq<char>>,
    pub queries: Seq<Seq<char>>,
    pub interval_minutes: u64,
    pub delay_ms: u64,
    pub max_concurrency: usize,
    pub max_pages: u32,
}

impl DeepView for SourceConfig {
    type V = SourceConfigView;

    open spec fn deep_view(&self) -> SourceConfigView {
        SourceConfigView {
            id: self.id@,
            url: self.url@,
            item_selector: self.item_selector@,
            title_selector: self.title_selector@,
            price_selector: self.price_selector@,
            link_selector: self.link_selector.deep_view(),
            queries: self.queries.deep_view(),
            interval_minutes: self.interval_minutes,
            delay_ms: self.delay_ms,
            max_concurrency: self.max_concurrency,
            max_pages: self.max_pages,
        }
    }
}

impl Clone for SourceConfig {
    fn clone(&self) -> (r: Self)
        ensures
            r.deep_view() == self.deep_view(),
    {
        let r = SourceConfig {
            id: self.id.clone(),
            url: self.url.clone(),
            item_selector: self.item_selector.clone(),
            title_selector: self.title_selector.clone(),
            price_selector: self.price_selector.clone(),
            link_selector: self.link_selector.clone(),
            queries: self.queries.clone(),
            interval_minutes: self.interval_minutes,
            delay_ms: self.delay_ms,
            max_concurrency: self.max_concurrency,
            max_pages: self.max_pages,
        };
        assert(r.queries.deep_view() =~= self.queries.deep_view());
        r
    }
}

/// The leboncoin source.
#[derive(Debug, PartialEq)]
pub struct LeboncoinConfig {
    pub enabled: bool,
    pub queries: Vec<String>,
    pub pages_per_query: u32,
    pub delay_ms: u64,
    pub interval_minutes: u64,
}

/// What `LeboncoinConfig` holds.
#[verifier::ext_equal]
pub struct LeboncoinConfigView {
    pub enabled: bool,
    pub queries: Seq<Seq<char>>,
    pub pages_per_query: u32,
    pub delay_ms: u64,
    pub interval_minutes: u64,
}

impl DeepView for LeboncoinConfig {
    type V = LeboncoinConfigView;

    open spec fn deep_view(&self) -> LeboncoinConfigView {
        LeboncoinConfigView {
            enabled: self.enabled,
            queries: self.queries.deep_view(),
            pages_per_query: self.pages_per_query,
            delay_ms: self.delay_ms,
            interval_minutes: self.interval_minutes,
        }
    }
}

impl Clone for LeboncoinConfig {
    fn clone(&self) -> (r: Self)
        ensures
            r.deep_view() == self.deep_view(),
    {
        let r = LeboncoinConfig {
            enabled: self.enabled,
            queries: self.queries.clone(),
            pages_per_query: self.pages_per_query,
            delay_ms: self.delay_ms,
            interval_minutes: self.interval_minutes,
        };
        assert(r.queries.deep_view() =~= self.queries.deep_view());
        r
    }
}

impl Default for LeboncoinConfig {
    fn default() -> (r: Self)
        ensures
            r.deep_view() == (LeboncoinConfigView {
                enabled: false,
                queries: Seq::empty(),
                pages_per_query: 2,
                delay_ms: 2000,
                interval_minutes: 30,
            }),
    {
        let queries: Vec<String> = Vec::new();
        assert(queries.deep_view() =~= Seq::empty());
        LeboncoinConfig {
            enabled: false,
            queries,
            pages_per_query: 2,
            delay_ms: 2000,
            interval_minutes: 30,
        }
    }
}

/// The eBay source.
#[derive(Debug, PartialEq)]
pub struct EbayConfig {
    pub enabled: bool,
    pub queries: Vec<String>,
    pub delay_ms: u64,
    pub interval_minutes: u64,
    /// An external fetcher (`{url}` substituted), where there is one.
    pub fetch_command: Vec<String>,
}

/// What `EbayConfig` holds.
#[verifier::ext_equal]
pub struct EbayConfigView {
    pub enabled: bool,
    pub queries: Seq<Seq<char>>,
    pub delay_ms: u64,
    pub interval_minutes: u64,
    pub fetch_command: Seq<Seq<char>>,
}

impl DeepView for EbayConfig {
    type V = EbayConfigView;

    open spec fn deep_view(&self) -> EbayConfigView {
        EbayConfigView {
            enabled: self.enabled,
            queries: self.queries.deep_view(),
            delay_ms: self.delay_ms,
            interval_minutes: self.interval_minutes,
            fetch_command: self.fetch_command.deep_view(),
        }
    }
}

impl Clone for EbayConfig {
    fn clone(&self) -> (r: Self)
        ensures
            r.deep_view() == self.deep_view(),
    {
        let r = EbayConfig {
            enabled: self.enabled,
            queries: self.queries.clone(),
            delay_ms: self.delay_ms,
            interval_minutes: self.interval_minutes,
            fetch_command: self.fetch_command.clone(),
        };
        assert(r.queries.deep_view() =~= self.queries.deep_view());
        assert(r.fetch_command.deep_view() =~= self.fetch_command.deep_view());
        r
    }
}

impl Default for EbayConfig {
    fn default() -> (r: Self)
        ensures
            r.deep_view() == (EbayConfigView {
                enabled: false,
                queries: Seq::empty(),
                delay_ms: 30000,
                interval_minutes: 60,
                fetch_command: Seq::empty(),
            }),
    {
        let queries: Vec<String> = Vec::new();
        let fetch_command: Vec<String> = Vec::new();
        assert(queries.deep_view() =~= Seq::empty());
        assert(fetch_command.deep_view() =~= Seq::empty());
        EbayConfig { enabled: false, queries, delay_ms: 30000, interval_minutes: 60, fetch_command }
    }
}

/// One Shopify store.
#[derive(Debug, PartialEq)]
pub struct ShopifyConfig {
    pub id: String,
    pub url: String,
    pub currency: String,
    pub interval_minutes: u64,
    pub delay_ms: u64,
}

/// What `ShopifyConfig` holds.
#[verifier::ext_equal]
pub struct ShopifyConfigView {
    pub id: Seq<char>,
    pub url: Seq<char>,
    pub currency: Seq<char>,
    pub interval_minutes: u64,
    pub delay_ms: u64,
}

impl DeepView for ShopifyConfig {
    type V = ShopifyConfigView;

    open spec fn deep_view(&self) -> ShopifyConfigView {
        ShopifyConfigView {
            id: self.id@,
            url: self.url@,
            currency: self.currency@,
            interval_minutes: self.interval_minutes,
            delay_ms: self.delay_ms,
        }
    }
}

impl Clone for ShopifyConfig {
    fn clone(&self) -> (r: Self)
        ensures
            r.deep_view() == self.deep_view(),
    {
        ShopifyConfig {
            id: self.id.clone(),
            url: self.url.clone(),
            currency: self.currency.clone(),
            interval_minutes: self.interval_minutes,
            delay_ms: self.delay_ms,
        }
    }
}

/// The LLM section.
#[derive(Debug, PartialEq)]
pub struct LlmConfig {
    pub enabled: bool,
    pub base_url: String,
    pub model: String,
    /// The file that holds the API key.
    pub api_key_file: Option<String>,
    pub timeout_secs: u64,
}

/// What `LlmConfig` holds.
#[verifier::ext_equal]
pub struct LlmConfigView {
    pub enabled: bool,
    pub base_url: Seq<char>,
    pub model: Seq<char>,
    pub api_key_file: Option<Seq<char>>,
    pub timeout_secs: u64,
}

impl DeepView for LlmConfig {
    type V = LlmConfigView;

    open spec fn deep_view(&self) -> LlmConfigView {
        LlmConfigView {
            enabled: self.enabled,
            base_url: self.base_url@,
            model: self.model@,
            api_key_file: self.api_key_file.deep_view(),
            timeout_secs: self.timeout_secs,
        }
    }
}

impl Default for LlmConfig {
    fn default() -> (r: Self)
        ensures
            r.deep_view() == (LlmConfigView {
                enabled: false,
                base_url: "http://localhost:8080/v1"@,
                model: "local"@,
                api_key_file: None,
                timeout_secs: 30,
            }),
    {
        LlmConfig {
            enabled: false,
            base_url: "http://localhost:8080/v1".to_owned(),
            model: "local".to_owned(),
            api_key_file: None,
            timeout_secs: 30,
        }
    }
}

/// The sources that the configuration sets up.
#[derive(Debug, PartialEq)]
pub struct Config {
    /// Declarative static-HTML sources.
    pub sources: Vec<SourceConfig>,
    pub leboncoin: LeboncoinConfig,
    pub ebay: EbayConfig,
    pub shopify: Vec<ShopifyConfig>,
    /// Product family tables.
    pub families: Vec<ProductFamily>,
}

/// What `Config` holds.
#[verifier::ext_equal]
pub struct ConfigView {
    pub sources: Seq<SourceConfigView>,
    pub leboncoin: LeboncoinConfigView,
    pub ebay: EbayConfigView,
    pub shopify: Seq<ShopifyConfigView>,
    pub families: Seq<ProductFamilyView>,
}

impl DeepView for Config {
    type V = ConfigView;

    open spec fn deep_view(&self) -> ConfigView {
        ConfigView {
            sources: self.sources.deep_view(),
            leboncoin: self.leboncoin.deep_view(),
            ebay: self.ebay.deep_view(),
            shopify: self.shopify.deep_view(),
            families: self.families.deep_view(),
        }
    }
}

impl Default for Config {
    fn default() -> (r: Self)
        ensures
            r.deep_view().sources.len() == 0,
            !r.leboncoin.enabled && r.leboncoin.deep_view().queries.len() == 0,
            r.leboncoin.pages_per_query == 2 && r.leboncoin.delay_ms == 2000,
            r.leboncoin.interval_minutes == 30,
            !r.ebay.enabled && r.ebay.deep_view().queries.len() == 0,
            r.ebay.delay_ms == 30000 && r.ebay.interval_minutes == 60,
            r.ebay.deep_view().fetch_command.len() == 0,
            r.deep_view().shopify.len() == 0,
            r.deep_view().families.len() == 0,
    {
        Config {
            sources: Vec::new(),
            leboncoin: LeboncoinConfig::default(),
            ebay: EbayConfig::default(),
            shopify: Vec::new(),
            families: Vec::new(),
        }
    }
}

} // verus!
