//! The sources that a configuration schedules.

use vstd::prelude::*;
use crate::config::{
    Config, ConfigView, EbayConfig, EbayConfigView, LeboncoinConfig, LeboncoinConfigView,
    ShopifyConfig, ShopifyConfigView, SourceConfig, SourceConfigView,
};

verus! {

/// A source that is scheduled.
#[derive(Debug, PartialEq)]
pub enum Scheduled {
    Generic(SourceConfig),
    Leboncoin(LeboncoinConfig),
    Shopify(ShopifyConfig),
    Ebay(EbayConfig),
}

/// What `Scheduled` holds.
#[verifier::ext_equal]
pub enum ScheduledView {
    Generic(SourceConfigView),
    Leboncoin(LeboncoinConfigView),
    Shopify(ShopifyConfigView),
    Ebay(EbayConfigView),
}

impl DeepView for Scheduled {
    type V = ScheduledView;

    open spec fn deep_view(&self) -> ScheduledView {
        match self {
            Scheduled::Generic(c) => ScheduledView::Generic(c.deep_view()),
            Scheduled::Leboncoin(c) => ScheduledView::Leboncoin(c.deep_view()),
            Scheduled::Shopify(c) => ScheduledView::Shopify(c.deep_view()),
            Scheduled::Ebay(c) => ScheduledView::Ebay(c.deep_view()),
        }
    }
}

impl ScheduledView {
    /// Minutes between two ticks.
    pub open spec fn interval_minutes(self) -> u64 {
        match self {
            ScheduledView::Generic(c) => c.interval_minutes,
            ScheduledView::Leboncoin(c) => c.interval_minutes,
            ScheduledView::Shopify(c) => c.interval_minutes,
            ScheduledView::Ebay(c) => c.interval_minutes,
        }
    }

    /// Milliseconds between two requests, at least.
    pub open spec fn delay_ms(self) -> u64 {
        match self {
            ScheduledView::Generic(c) => c.delay_ms,
            ScheduledView::Leboncoin(c) => c.delay_ms,
            ScheduledView::Shopify(c) => c.delay_ms,
            ScheduledView::Ebay(c) => c.delay_ms,
        }
    }
}

impl Scheduled {
    /// Minutes between two ticks.
    pub fn interval_minutes(&self) -> (r: u64)
        ensures
            r == self.deep_view().interval_minutes(),
    {
        match self {
            Scheduled::Generic(c) => c.interval_minutes,
            Scheduled::Leboncoin(c) => c.interval_minutes,
            Scheduled::Shopify(c) => c.interval_minutes,
            Scheduled::Ebay(c) => c.interval_minutes,
        }
    }

    /// Milliseconds between two requests at least, and how many may be under way: one, but
    /// for the declarative sources, which say it themselves.
    pub fn pace(&self) -> (r: (u64, usize))
        ensures
            r.0 == self.deep_view().delay_ms(),
            r.1 == match self.deep_view() {
                ScheduledView::Generic(c) => c.max_concurrency,
                _ => 1,
            },
    {
        match self {
            Scheduled::Generic(c) => (c.delay_ms, c.max_concurrency),
            Scheduled::Leboncoin(c) => (c.delay_ms, 1),
            Scheduled::Shopify(c) => (c.delay_ms, 1),
            Scheduled::Ebay(c) => (c.delay_ms, 1),
        }
    }
}

/// The sources that a configuration schedules: the declarative ones, then those of the
/// marketplaces that are enabled. Being enabled is enough: the watches' queries can come
/// at any time.
pub open spec fn schedule_of(config: ConfigView) -> Seq<ScheduledView> {
    Seq::new(config.sources.len(), |i: int| ScheduledView::Generic(config.sources[i])) + (
    if config.leboncoin.enabled {
        seq![ScheduledView::Leboncoin(config.leboncoin)]
    } else {
        Seq::empty()
    }) + Seq::new(config.shopify.len(), |i: int| ScheduledView::Shopify(config.shopify[i])) + (
    if config.ebay.enabled {
        seq![ScheduledView::Ebay(config.ebay)]
    } else {
        Seq::empty()
    })
}

fn generic_sources(sources: &Vec<SourceConfig>) -> (r: Vec<Scheduled>)
    ensures
        r.deep_view() == Seq::new(
            sources@.len(),
            |i: int| ScheduledView::Generic(sources.deep_view()[i]),
        ),
{
    let ghost all = Seq::new(
        sources@.len(),
        |i: int| ScheduledView::Generic(sources.deep_view()[i]),
    );
    let mut out: Vec<Scheduled> = Vec::new();
    let mut i: usize = 0;
    assert(out.deep_view() =~= all.take(0));
    while i < sources.len()
        invariant
            i <= sources@.len(),
            all == Seq::new(
                sources@.len(),
                |i: int| ScheduledView::Generic(sources.deep_view()[i]),
            ),
            out.deep_view() == all.take(i as int),
        decreases sources@.len() - i,
    {
        let ghost before = out.deep_view();
        let item = Scheduled::Generic(sources[i].clone());
        out.push(item);
        assert(out.deep_view() =~= before.push(item.deep_view()));
        i = i + 1;
        assert(out.deep_view() =~= all.take(i as int));
    }
    assert(all.take(all.len() as int) =~= all);
    out
}

/// The sources that a configuration schedules.
pub fn schedule(config: &Config) -> (r: Vec<Scheduled>)
    ensures
        r.deep_view() == schedule_of(config.deep_view()),
{
    let ghost c = config.deep_view();
    let mut out = generic_sources(&config.sources);
    let ghost generic = out.deep_view();
    if config.leboncoin.enabled {
        out.push(Scheduled::Leboncoin(config.leboncoin.clone()));
    }
    let ghost head = generic + (if c.leboncoin.enabled {
        seq![ScheduledView::Leboncoin(c.leboncoin)]
    } else {
        Seq::empty()
    });
    let ghost shops = Seq::new(c.shopify.len(), |i: int| ScheduledView::Shopify(c.shopify[i]));
    let mut i: usize = 0;
    assert(out.deep_view() =~= head + shops.take(0));
    while i < config.shopify.len()
        invariant
            i <= config.shopify@.len(),
            c == config.deep_view(),
            shops == Seq::new(c.shopify.len(), |i: int| ScheduledView::Shopify(c.shopify[i])),
            out.deep_view() == head + shops.take(i as int),
        decreases config.shopify@.len() - i,
    {
        let ghost before = out.deep_view();
        assert(c.shopify[i as int] == config.shopify@[i as int].deep_view());
        let item = Scheduled::Shopify(config.shopify[i].clone());
        out.push(item);
        assert(out.deep_view() =~= before.push(item.deep_view()));
        i = i + 1;
        assert(out.deep_view() =~= head + shops.take(i as int));
    }
    assert(shops.take(shops.len() as int) =~= shops);
    if config.ebay.enabled {
        out.push(Scheduled::Ebay(config.ebay.clone()));
    }
    assert(out.deep_view() =~= schedule_of(c));
    out
}

/// Every declarative source and every store is scheduled as it is configured, and each
/// marketplace exactly where it is enabled: the declarative sources, Leboncoin, the stores,
/// eBay.
pub proof fn every_source_is_scheduled(config: ConfigView, i: int)
    ensures
        ({
            let all = schedule_of(config);
            let n = config.sources.len() as int;
            let m = config.shopify.len() as int;
            let l: int = if config.leboncoin.enabled {
                1
            } else {
                0
            };
            let e: int = if config.ebay.enabled {
                1
            } else {
                0
            };
            &&& all.len() == n + l + m + e
            &&& 0 <= i < n ==> all[i] == ScheduledView::Generic(config.sources[i])
            &&& config.leboncoin.enabled ==> all[n] == ScheduledView::Leboncoin(config.leboncoin)
            &&& 0 <= i < m ==> all[n + l + i] == ScheduledView::Shopify(config.shopify[i])
            &&& config.ebay.enabled ==> all.last() == ScheduledView::Ebay(config.ebay)
        }),
{
}

/// Each source ticks and waits as it is configured.
pub proof fn sources_keep_their_pace(
    g: SourceConfigView,
    l: LeboncoinConfigView,
    s: ShopifyConfigView,
    e: EbayConfigView,
)
    ensures
        ScheduledView::Generic(g).interval_minutes() == g.interval_minutes,
        ScheduledView::Leboncoin(l).interval_minutes() == l.interval_minutes,
        ScheduledView::Shopify(s).interval_minutes() == s.interval_minutes,
        ScheduledView::Ebay(e).interval_minutes() == e.interval_minutes,
        ScheduledView::Generic(g).delay_ms() == g.delay_ms,
        ScheduledView::Leboncoin(l).delay_ms() == l.delay_ms,
        ScheduledView::Shopify(s).delay_ms() == s.delay_ms,
        ScheduledView::Ebay(e).delay_ms() == e.delay_ms,
{
}

} // verus!
