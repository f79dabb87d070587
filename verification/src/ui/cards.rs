//! Deal cards and watch rows: what they say, and what their buttons ask for.

use vstd::prelude::*;
use crate::pipeline::one_if;
use crate::category::{SpecFilter, SpecFilterView};
use crate::deal::{
    has_flag, Deal, DealRow, DealRowView, DealStatus, DealView, Flag, LlmVerdict, MatchInfo,
    MatchInfoView, Moderation,
};
use crate::money::{cents_text, money_text};
use crate::reading::{reading_text, ReadingView};
use crate::status::StatusResponse;
use crate::text::{i64_text, int_text, join, joined, push_text, same};
use crate::watch::{Watch, WatchRequest, WatchRequestView, WatchView};

verus! {

/// A price as the pages show it: euros by their sign, other currencies by their code.
pub open spec fn price_shown(cents: i64, currency: Seq<char>) -> Seq<char> {
    money_text(cents as int) + " "@ + (if currency == "EUR"@ {
        "€"@
    } else {
        currency
    })
}

/// A price as the pages show it: euros by their sign, other currencies by their code.
pub fn format_price(cents: i64, currency: &str) -> (r: String)
    ensures
        r@ == price_shown(cents, currency@),
{
    let mut out = cents_text(cents);
    out.append(" ");
    if same(currency, "EUR") {
        out.append("€");
    } else {
        out.append(currency);
    }
    out
}

/// A short label and how it looks: "ok", "warn", "bad" or "muted".
#[derive(Debug, PartialEq, Eq)]
pub struct Badge {
    pub text: String,
    pub kind: String,
}

/// What `Badge` holds.
#[verifier::ext_equal]
pub struct BadgeView {
    pub text: Seq<char>,
    pub kind: Seq<char>,
}

impl DeepView for Badge {
    type V = BadgeView;

    open spec fn deep_view(&self) -> BadgeView {
        BadgeView { text: self.text@, kind: self.kind@ }
    }
}

/// A badge.
pub open spec fn badge(text: Seq<char>, kind: Seq<char>) -> BadgeView {
    BadgeView { text, kind }
}

/// The badge of a flag.
pub open spec fn flag_badge(flag: Flag) -> BadgeView {
    match flag {
        Flag::PossibleStuffing => badge("possible stuffing"@, "warn"@),
        Flag::PriceOutlier => badge("price outlier"@, "warn"@),
        Flag::WantedAd => badge("wanted ad"@, "muted"@),
    }
}

/// The badge of what the LLM said.
pub open spec fn verdict_badge(verdict: LlmVerdict) -> BadgeView {
    match verdict {
        LlmVerdict::Genuine => badge("llm: genuine"@, "ok"@),
        LlmVerdict::StuffedTitle => badge("llm: stuffed title"@, "warn"@),
        LlmVerdict::Scam => badge("llm: scam"@, "bad"@),
        LlmVerdict::Irrelevant => badge("llm: not the product"@, "muted"@),
    }
}

/// The badges of a deal: its flags, what the LLM said, whether it is gone, and what the
/// user decided.
pub open spec fn badges_of(deal: DealView) -> Seq<BadgeView> {
    Seq::new(deal.flags.len(), |i: int| flag_badge(deal.flags[i])) + (match deal.llm_verdict {
        Some(v) => seq![verdict_badge(v)],
        None => Seq::empty(),
    }) + (if deal.status == DealStatus::Gone {
        seq![badge("gone"@, "muted"@)]
    } else {
        Seq::empty()
    }) + (match deal.moderation {
        Moderation::Dismissed => seq![badge("dismissed"@, "muted"@)],
        Moderation::Banned => seq![badge("banned"@, "bad"@)],
        Moderation::Unmoderated => Seq::empty(),
    })
}

fn push_badge(list: &mut Vec<Badge>, text: &str, kind: &str)
    ensures
        final(list).deep_view() == old(list).deep_view().push(badge(text@, kind@)),
{
    let ghost before = list.deep_view();
    let b = Badge { text: text.to_owned(), kind: kind.to_owned() };
    list.push(b);
    assert(list.deep_view() =~= before.push(badge(text@, kind@)));
}

fn flag_badges(flags: &Vec<Flag>) -> (r: Vec<Badge>)
    ensures
        r.deep_view() == Seq::new(flags@.len(), |i: int| flag_badge(flags@[i])),
{
    let ghost all = Seq::new(flags@.len(), |i: int| flag_badge(flags@[i]));
    let mut out: Vec<Badge> = Vec::new();
    let mut i: usize = 0;
    assert(out.deep_view() =~= all.take(0));
    while i < flags.len()
        invariant
            i <= flags@.len(),
            all == Seq::new(flags@.len(), |i: int| flag_badge(flags@[i])),
            out.deep_view() == all.take(i as int),
        decreases flags@.len() - i,
    {
        match flags[i] {
            Flag::PossibleStuffing => push_badge(&mut out, "possible stuffing", "warn"),
            Flag::PriceOutlier => push_badge(&mut out, "price outlier", "warn"),
            Flag::WantedAd => push_badge(&mut out, "wanted ad", "muted"),
        }
        i = i + 1;
        assert(out.deep_view() =~= all.take(i as int));
    }
    assert(all.take(all.len() as int) =~= all);
    out
}

/// The badges of a deal.
pub fn deal_badges(deal: &Deal) -> (r: Vec<Badge>)
    ensures
        r.deep_view() == badges_of(deal.deep_view()),
{
    assert(deal.flags@ == deal.deep_view().flags);
    let mut out = flag_badges(&deal.flags);
    match deal.llm_verdict {
        Some(LlmVerdict::Genuine) => push_badge(&mut out, "llm: genuine", "ok"),
        Some(LlmVerdict::StuffedTitle) => push_badge(&mut out, "llm: stuffed title", "warn"),
        Some(LlmVerdict::Scam) => push_badge(&mut out, "llm: scam", "bad"),
        Some(LlmVerdict::Irrelevant) => push_badge(&mut out, "llm: not the product", "muted"),
        None => {},
    }
    if deal.status == DealStatus::Gone {
        push_badge(&mut out, "gone", "muted");
    }
    match deal.moderation {
        Moderation::Dismissed => push_badge(&mut out, "dismissed", "muted"),
        Moderation::Banned => push_badge(&mut out, "banned", "bad"),
        Moderation::Unmoderated => {},
    }
    assert(out.deep_view() =~= badges_of(deal.deep_view()));
    out
}

/// A capacity as a card shows it: whole terabytes as such.
pub open spec fn capacity_shown(gb: i64) -> Seq<char> {
    if gb >= 1000 && gb % 1000 == 0 {
        int_text((gb / 1000) as int) + " TB"@
    } else {
        int_text(gb as int) + " GB"@
    }
}

/// A capacity as a card shows it.
pub fn format_capacity(gb: i64) -> (r: String)
    ensures
        r@ == capacity_shown(gb),
{
    if gb >= 1000 && gb % 1000 == 0 {
        let mut out = i64_text(gb / 1000);
        out.append(" TB");
        out
    } else {
        let mut out = i64_text(gb);
        out.append(" GB");
        out
    }
}

/// What a card says below the title: the source, the capacity and the condition.
pub open spec fn details_of(deal: DealView) -> Seq<char> {
    joined(
        seq![deal.source_id] + (match deal.capacity_gb {
            Some(gb) => seq![capacity_shown(gb)],
            None => Seq::empty(),
        }) + (match deal.condition {
            Some(c) => seq![c],
            None => Seq::empty(),
        }),
        " · "@,
    )
}

/// What a card says below the title.
pub fn deal_details(deal: &Deal) -> (r: String)
    ensures
        r@ == details_of(deal.deep_view()),
{
    let mut parts: Vec<String> = Vec::new();
    push_text(&mut parts, deal.source_id.as_str());
    if let Some(gb) = deal.capacity_gb {
        push_text(&mut parts, format_capacity(gb).as_str());
    }
    if let Some(condition) = &deal.condition {
        push_text(&mut parts, condition.as_str());
    }
    let ghost d = deal.deep_view();
    assert(parts.deep_view() =~= seq![d.source_id] + (match d.capacity_gb {
        Some(gb) => seq![capacity_shown(gb)],
        None => Seq::empty(),
    }) + (match d.condition {
        Some(c) => seq![c],
        None => Seq::empty(),
    }));
    join(&parts, " · ")
}

/// What the user can decide about a deal: everything but what they have decided.
pub open spec fn choices(current: Moderation) -> Seq<Moderation> {
    match current {
        Moderation::Unmoderated => seq![Moderation::Dismissed, Moderation::Banned],
        Moderation::Dismissed => seq![Moderation::Banned, Moderation::Unmoderated],
        Moderation::Banned => seq![Moderation::Dismissed, Moderation::Unmoderated],
    }
}

/// What the user can decide about a deal: dismiss, ban or restore.
pub fn moderation_actions(current: Moderation) -> (r: Vec<Moderation>)
    ensures
        r@ == choices(current),
{
    let mut out: Vec<Moderation> = Vec::new();
    if current != Moderation::Dismissed {
        out.push(Moderation::Dismissed);
    }
    if current != Moderation::Banned {
        out.push(Moderation::Banned);
    }
    if current != Moderation::Unmoderated {
        out.push(Moderation::Unmoderated);
    }
    assert(out@ =~= choices(current));
    out
}

/// The names of the watches of matches, of those only that were pushed where `pushed`.
pub open spec fn watch_names(matches: Seq<MatchInfoView>, pushed: bool) -> Seq<Seq<char>>
    decreases matches.len(),
{
    if matches.len() == 0 {
        Seq::empty()
    } else {
        let before = watch_names(matches.drop_last(), pushed);
        if !pushed || matches.last().notified_price_cents is Some {
            before.push(matches.last().watch_name)
        } else {
            before
        }
    }
}

/// Why a match was not pushed, in the order in which the reasons are looked at.
pub open spec fn mute_reason(deal: DealView) -> Option<Seq<char>> {
    if deal.flags.contains(Flag::WantedAd) {
        Some("wanted ad"@)
    } else {
        match deal.llm_verdict {
            Some(LlmVerdict::StuffedTitle) => Some("stuffed title"@),
            Some(LlmVerdict::Scam) => Some("scam verdict"@),
            Some(LlmVerdict::Irrelevant) => Some("not the product"@),
            Some(LlmVerdict::Genuine) => None,
            None => if deal.flags.contains(Flag::PossibleStuffing) {
                Some("possible stuffing without LLM"@)
            } else {
                None
            },
        }
    }
}

/// Whether a deal was reported, and if not, why.
pub open spec fn outcome_of(row: DealRowView) -> BadgeView {
    let pushed = watch_names(row.matches, true);
    if pushed.len() > 0 {
        badge("reported: "@ + joined(pushed, ", "@), "ok"@)
    } else if row.matches.len() > 0 {
        badge(
            "matched "@ + joined(watch_names(row.matches, false), ", "@) + (match mute_reason(
                row.deal,
            ) {
                Some(why) => " — muted: "@ + why,
                None => " — muted"@,
            }),
            "warn"@,
        )
    } else {
        match row.deal.moderation {
            Moderation::Dismissed => badge("not reported: dismissed by you"@, "muted"@),
            Moderation::Banned => badge("not reported: banned by you"@, "muted"@),
            Moderation::Unmoderated => badge("not reported: no watch matches"@, "muted"@),
        }
    }
}

fn names_of(matches: &Vec<MatchInfo>, pushed: bool) -> (r: Vec<String>)
    ensures
        r.deep_view() == watch_names(matches.deep_view(), pushed),
{
    let ghost all = matches.deep_view();
    let mut out: Vec<String> = Vec::new();
    let mut i: usize = 0;
    assert(out.deep_view() =~= Seq::empty());
    while i < matches.len()
        invariant
            i <= matches@.len(),
            all == matches.deep_view(),
            out.deep_view() == watch_names(all.take(i as int), pushed),
        decreases matches@.len() - i,
    {
        assert(all.take(i + 1).drop_last() =~= all.take(i as int));
        assert(all.take(i + 1).last() == matches@[i as int].deep_view());
        if !pushed || matches[i].notified_price_cents.is_some() {
            push_text(&mut out, matches[i].watch_name.as_str());
        }
        i = i + 1;
    }
    assert(all.take(all.len() as int) =~= all);
    out
}

fn reason(deal: &Deal) -> (r: Option<&'static str>)
    ensures
        match r {
            Some(why) => mute_reason(deal.deep_view()) == Some(why@),
            None => mute_reason(deal.deep_view()) is None,
        },
{
    if has_flag(deal.flags.as_slice(), Flag::WantedAd) {
        return Some("wanted ad");
    }
    match deal.llm_verdict {
        Some(LlmVerdict::StuffedTitle) => Some("stuffed title"),
        Some(LlmVerdict::Scam) => Some("scam verdict"),
        Some(LlmVerdict::Irrelevant) => Some("not the product"),
        Some(LlmVerdict::Genuine) => None,
        None => {
            if has_flag(deal.flags.as_slice(), Flag::PossibleStuffing) {
                Some("possible stuffing without LLM")
            } else {
                None
            }
        },
    }
}

/// Whether a deal was reported, and if not, why: the first badge of its card.
pub fn report_outcome(row: &DealRow) -> (r: Badge)
    ensures
        r.deep_view() == outcome_of(row.deep_view()),
{
    let pushed = names_of(&row.matches, true);
    assert(pushed.deep_view().len() == pushed@.len());
    assert(row.matches.deep_view().len() == row.matches@.len());
    if pushed.len() > 0 {
        let mut text = "reported: ".to_owned();
        text.append(join(&pushed, ", ").as_str());
        return Badge { text, kind: "ok".to_owned() };
    }
    if row.matches.len() > 0 {
        let mut text = "matched ".to_owned();
        text.append(join(&names_of(&row.matches, false), ", ").as_str());
        match reason(&row.deal) {
            Some(why) => {
                let mut tail = " — muted: ".to_owned();
                tail.append(why);
                text.append(tail.as_str());
            },
            None => {
                text.append(" — muted");
            },
        }
        return Badge { text, kind: "warn".to_owned() };
    }
    let text = match row.deal.moderation {
        Moderation::Dismissed => "not reported: dismissed by you".to_owned(),
        Moderation::Banned => "not reported: banned by you".to_owned(),
        Moderation::Unmoderated => "not reported: no watch matches".to_owned(),
    };
    Badge { text, kind: "muted".to_owned() }
}

/// What stands in place of a list of deals: none where there are some to show. `loaded`
/// is none while they load, and how many came, or what went wrong.
pub open spec fn deals_note(loaded: Option<Result<nat, Seq<char>>>, hidden: bool) -> Option<
    Seq<char>,
> {
    match loaded {
        None => Some("Loading…"@),
        Some(Err(e)) => Some("server unreachable: "@ + e),
        Some(Ok(n)) => if n > 0 {
            None
        } else if hidden {
            Some("Nothing dismissed or banned."@)
        } else {
            Some("No deals yet — they appear as sources are scraped."@)
        },
    }
}

/// How many came, as a mathematical number, or what went wrong.
pub open spec fn loaded_view(loaded: Option<Result<usize, String>>) -> Option<
    Result<nat, Seq<char>>,
> {
    match loaded {
        None => None,
        Some(Err(e)) => Some(Err(e@)),
        Some(Ok(n)) => Some(Ok(n as nat)),
    }
}

/// What stands in place of a list of deals.
pub fn deals_placeholder(loaded: Option<Result<usize, String>>, hidden: bool) -> (r: Option<
    String,
>)
    ensures
        r.deep_view() == deals_note(loaded_view(loaded), hidden),
{
    match loaded {
        None => Some("Loading…".to_owned()),
        Some(Err(e)) => {
            let mut m = "server unreachable: ".to_owned();
            m.append(e.as_str());
            Some(m)
        },
        Some(Ok(n)) => {
            if n > 0 {
                None
            } else if hidden {
                Some("Nothing dismissed or banned.".to_owned())
            } else {
                Some("No deals yet — they appear as sources are scraped.".to_owned())
            }
        },
    }
}

/// What stands in place of a list of watches.
pub open spec fn watches_note(loaded: Option<Result<nat, Seq<char>>>) -> Option<Seq<char>> {
    match loaded {
        None => Some("Loading…"@),
        Some(Err(e)) => Some("server unreachable: "@ + e),
        Some(Ok(n)) => if n > 0 {
            None
        } else {
            Some("No watches yet — describe a product above."@)
        },
    }
}

/// What stands in place of a list of watches.
pub fn watches_placeholder(loaded: Option<Result<usize, String>>) -> (r: Option<String>)
    ensures
        r.deep_view() == watches_note(loaded_view(loaded)),
{
    match loaded {
        None => Some("Loading…".to_owned()),
        Some(Err(e)) => {
            let mut m = "server unreachable: ".to_owned();
            m.append(e.as_str());
            Some(m)
        },
        Some(Ok(n)) => {
            if n > 0 {
                None
            } else {
                Some("No watches yet — describe a product above.".to_owned())
            }
        },
    }
}

// ---- watch rows ----

/// A filter as a row names it.
pub open spec fn filter_label(filter: SpecFilterView) -> Seq<char> {
    match filter {
        SpecFilterView::Min { key, value } => key + " ≥ "@ + reading_text(value),
        SpecFilterView::Max { key, value } => key + " ≤ "@ + reading_text(value),
        SpecFilterView::Eq { key, value } => key + " = "@ + value,
        SpecFilterView::AnyOf { key, values } => key + " ∈ "@ + joined(values, "/"@),
        SpecFilterView::Is { key, value } => key + ": "@ + (if value {
            "true"@
        } else {
            "false"@
        }),
    }
}

/// A text in a list of its own, where there is one.
pub open spec fn if_some(t: Option<Seq<char>>) -> Seq<Seq<char>> {
    match t {
        Some(s) => seq![s],
        None => Seq::empty(),
    }
}

/// What a row says of the product that a watch is for.
pub open spec fn product_labels(watch: WatchView) -> Seq<Seq<char>> {
    if_some(watch.category) + Seq::new(
        watch.spec_filters.len(),
        |i: int| filter_label(watch.spec_filters[i]),
    ) + if_some(watch.family) + if_some(
        match watch.model {
            Some(m) => Some("model "@ + m),
            None => None,
        },
    )
}

/// What a row says of the bounds and the queries of a watch.
pub open spec fn bound_labels(watch: WatchView) -> Seq<Seq<char>> {
    if_some(
        match watch.min_capacity_gb {
            Some(gb) => Some("≥ "@ + int_text(gb as int) + " GB"@),
            None => None,
        },
    ) + if_some(
        match watch.min_price_cents {
            Some(c) => Some("≥ "@ + price_shown(c, "EUR"@)),
            None => None,
        },
    ) + if_some(
        match watch.max_price_cents {
            Some(c) => Some("≤ "@ + price_shown(c, "EUR"@)),
            None => None,
        },
    ) + if_some(
        if watch.queries.len() > 0 {
            Some("searches: "@ + joined(watch.queries, ", "@))
        } else {
            None
        },
    )
}

/// What a row says of a watch.
pub open spec fn watch_labels(watch: WatchView) -> Seq<Seq<char>> {
    product_labels(watch) + bound_labels(watch)
}

fn label_filter(filter: &SpecFilter) -> (r: String)
    ensures
        r@ == filter_label(filter.deep_view()),
{
    match filter {
        SpecFilter::Min { key, value } => {
            let mut out = key.clone();
            out.append(" ≥ ");
            out.append(value.to_text().as_str());
            out
        },
        SpecFilter::Max { key, value } => {
            let mut out = key.clone();
            out.append(" ≤ ");
            out.append(value.to_text().as_str());
            out
        },
        SpecFilter::Eq { key, value } => {
            let mut out = key.clone();
            out.append(" = ");
            out.append(value.as_str());
            out
        },
        SpecFilter::AnyOf { key, values } => {
            let mut out = key.clone();
            out.append(" ∈ ");
            out.append(join(values, "/").as_str());
            out
        },
        SpecFilter::Is { key, value } => {
            let mut out = key.clone();
            out.append(": ");
            if *value {
                out.append("true");
            } else {
                out.append("false");
            }
            out
        },
    }
}

fn label_filters(filters: &Vec<SpecFilter>) -> (r: Vec<String>)
    ensures
        r.deep_view() == Seq::new(filters@.len(), |i: int| filter_label(filters.deep_view()[i])),
{
    let ghost all = Seq::new(filters@.len(), |i: int| filter_label(filters.deep_view()[i]));
    let mut out: Vec<String> = Vec::new();
    let mut i: usize = 0;
    assert(out.deep_view() =~= all.take(0));
    while i < filters.len()
        invariant
            i <= filters@.len(),
            all == Seq::new(filters@.len(), |i: int| filter_label(filters.deep_view()[i])),
            out.deep_view() == all.take(i as int),
        decreases filters@.len() - i,
    {
        push_text(&mut out, label_filter(&filters[i]).as_str());
        i = i + 1;
        assert(out.deep_view() =~= all.take(i as int));
    }
    assert(all.take(all.len() as int) =~= all);
    out
}

/// `front`, followed by each of `more`.
fn append_texts(front: Vec<String>, more: &Vec<String>) -> (r: Vec<String>)
    ensures
        r.deep_view() == front.deep_view() + more.deep_view(),
{
    let ghost start = front.deep_view();
    let ghost added = more.deep_view();
    let mut out = front;
    let mut i: usize = 0;
    assert(out.deep_view() =~= start + added.take(0));
    while i < more.len()
        invariant
            i <= more@.len(),
            added == more.deep_view(),
            out.deep_view() == start + added.take(i as int),
        decreases more@.len() - i,
    {
        assert(added[i as int] == more@[i as int]@);
        push_text(&mut out, more[i].as_str());
        i = i + 1;
        assert(out.deep_view() =~= start + added.take(i as int));
    }
    assert(added.take(added.len() as int) =~= added);
    out
}

/// `list` with a text more, where there is one.
fn push_some(list: Vec<String>, t: &Option<String>) -> (r: Vec<String>)
    ensures
        r.deep_view() == list.deep_view() + if_some(t.deep_view()),
{
    let ghost before = list.deep_view();
    let mut out = list;
    match t {
        Some(s) => {
            push_text(&mut out, s.as_str());
            assert(out.deep_view() =~= before + seq![s@]);
        },
        None => {
            assert(out.deep_view() =~= before + Seq::empty());
        },
    }
    out
}

fn labels_of_bounds(watch: &Watch) -> (r: Vec<String>)
    ensures
        r.deep_view() == bound_labels(watch.deep_view()),
{
    let capacity = match watch.min_capacity_gb {
        Some(gb) => {
            let mut label = "≥ ".to_owned();
            label.append(i64_text(gb).as_str());
            label.append(" GB");
            Some(label)
        },
        None => None,
    };
    let min = match watch.min_price_cents {
        Some(c) => {
            let mut label = "≥ ".to_owned();
            label.append(format_price(c, "EUR").as_str());
            Some(label)
        },
        None => None,
    };
    let max = match watch.max_price_cents {
        Some(c) => {
            let mut label = "≤ ".to_owned();
            label.append(format_price(c, "EUR").as_str());
            Some(label)
        },
        None => None,
    };
    assert(watch.queries.deep_view().len() == watch.queries@.len());
    let searches = if watch.queries.len() > 0 {
        let mut label = "searches: ".to_owned();
        label.append(join(&watch.queries, ", ").as_str());
        Some(label)
    } else {
        None
    };
    let out: Vec<String> = Vec::new();
    let out = push_some(out, &capacity);
    assert(out.deep_view() =~= if_some(capacity.deep_view()));
    push_some(push_some(push_some(out, &min), &max), &searches)
}

fn labels_of_product(watch: &Watch) -> (r: Vec<String>)
    ensures
        r.deep_view() == product_labels(watch.deep_view()),
{
    let model = match &watch.model {
        Some(m) => {
            let mut label = "model ".to_owned();
            label.append(m.as_str());
            Some(label)
        },
        None => None,
    };
    let out: Vec<String> = Vec::new();
    let out = push_some(out, &watch.category);
    assert(out.deep_view() =~= if_some(watch.category.deep_view()));
    let out = append_texts(out, &label_filters(&watch.spec_filters));
    push_some(push_some(out, &watch.family), &model)
}

/// What a row says of a watch.
pub fn watch_summary(watch: &Watch) -> (r: String)
    ensures
        r@ == joined(watch_labels(watch.deep_view()), " · "@),
{
    join(&append_texts(labels_of_product(watch), &labels_of_bounds(watch)), " · ")
}

/// The request that leaves a watch as it is, but active or paused.
pub open spec fn same_request(watch: WatchView, active: bool) -> WatchRequestView {
    WatchRequestView {
        name: watch.name,
        family: watch.family,
        model: watch.model,
        min_capacity_gb: watch.min_capacity_gb,
        min_price_cents: watch.min_price_cents,
        max_price_cents: watch.max_price_cents,
        category: watch.category,
        spec_filters: watch.spec_filters,
        queries: watch.queries,
        active,
    }
}

/// The request that leaves a watch as it is, but active or paused.
pub fn request_from(watch: &Watch, active: bool) -> (r: WatchRequest)
    ensures
        r.deep_view() == same_request(watch.deep_view(), active),
{
    let spec_filters = watch.spec_filters.clone();
    let queries = watch.queries.clone();
    assert(spec_filters.deep_view() =~= watch.spec_filters.deep_view());
    assert(queries.deep_view() =~= watch.queries.deep_view());
    WatchRequest {
        name: watch.name.clone(),
        family: watch.family.clone(),
        model: watch.model.clone(),
        min_capacity_gb: watch.min_capacity_gb,
        min_price_cents: watch.min_price_cents,
        max_price_cents: watch.max_price_cents,
        category: watch.category.clone(),
        spec_filters,
        queries,
        active,
    }
}

/// How many deals match a watch, as the status gives it.
pub open spec fn matches_of(counts: Seq<(u128, i64)>, id: u128) -> i64
    decreases counts.len(),
{
    if counts.len() == 0 {
        0
    } else if counts[0].0 == id {
        counts[0].1
    } else {
        matches_of(counts.drop_first(), id)
    }
}

fn count_for(counts: &Vec<(u128, i64)>, id: u128) -> (r: i64)
    ensures
        r == matches_of(counts@, id),
{
    let mut i: usize = 0;
    assert(counts@.skip(0) =~= counts@);
    while i < counts.len()
        invariant
            i <= counts@.len(),
            matches_of(counts@, id) == matches_of(counts@.skip(i as int), id),
        decreases counts@.len() - i,
    {
        assert(counts@.skip(i as int).drop_first() =~= counts@.skip(i + 1));
        if counts[i].0 == id {
            return counts[i].1;
        }
        i = i + 1;
    }
    0
}

/// How many deals match a watch; none before there is a status.
pub fn match_count(status: Option<&StatusResponse>, id: u128) -> (r: i64)
    ensures
        r == match status {
            Some(s) => matches_of(s.deep_view().watch_matches, id),
            None => 0,
        },
{
    match status {
        Some(s) => count_for(&s.watch_matches, id),
        None => 0,
    }
}

/// The request that a row sends changes nothing of a watch but whether it is active.
pub proof fn toggling_changes_only_activity(watch: WatchView, active: bool)
    ensures
        crate::watch::watch_made(same_request(watch, active), watch.id, watch.created_at) == (
        WatchView { active, ..watch }),
{
}

/// A deal that was not pushed though it matched says why, exactly where the deal is not
/// worth a push.
pub proof fn muted_deals_say_why(deal: DealView)
    ensures
        mute_reason(deal) is Some <==> !crate::pipeline::worthy(deal),
{
}

/// The badges of a deal: one for each flag, in order, then one for the verdict, one where
/// it is gone and one for what the user decided.
pub proof fn every_flag_has_a_badge(deal: DealView, i: int)
    ensures
        ({
            let all = badges_of(deal);
            let n = deal.flags.len() as int;
            let v: int = if deal.llm_verdict is Some {
                1
            } else {
                0
            };
            let g: int = if deal.status == DealStatus::Gone {
                1
            } else {
                0
            };
            let m: int = if deal.moderation == Moderation::Unmoderated {
                0
            } else {
                1
            };
            &&& all.len() == n + v + g + m
            &&& 0 <= i < n ==> all[i] == flag_badge(deal.flags[i])
            &&& deal.llm_verdict is Some ==> all[n] == verdict_badge(deal.llm_verdict->0)
            &&& deal.status == DealStatus::Gone ==> all[n + v] == badge("gone"@, "muted"@)
            &&& deal.moderation == Moderation::Dismissed ==> all.last() == badge(
                "dismissed"@,
                "muted"@,
            )
            &&& deal.moderation == Moderation::Banned ==> all.last() == badge("banned"@, "bad"@)
        }),
        flag_badge(Flag::PossibleStuffing) == badge("possible stuffing"@, "warn"@),
        flag_badge(Flag::PriceOutlier) == badge("price outlier"@, "warn"@),
        flag_badge(Flag::WantedAd) == badge("wanted ad"@, "muted"@),
        verdict_badge(LlmVerdict::Genuine) == badge("llm: genuine"@, "ok"@),
        verdict_badge(LlmVerdict::StuffedTitle) == badge("llm: stuffed title"@, "warn"@),
        verdict_badge(LlmVerdict::Scam) == badge("llm: scam"@, "bad"@),
        verdict_badge(LlmVerdict::Irrelevant) == badge("llm: not the product"@, "muted"@),
{
}

/// Prices in euros show the sign, others their code; whole terabytes show as such.
pub proof fn prices_and_capacities_are_shown(cents: i64, currency: Seq<char>, gb: i64)
    ensures
        price_shown(cents, "EUR"@) == money_text(cents as int) + " "@ + "€"@,
        currency != "EUR"@ ==> price_shown(cents, currency) == money_text(cents as int) + " "@
            + currency,
        gb >= 1000 && gb % 1000 == 0 ==> capacity_shown(gb) == int_text((gb / 1000) as int) + " TB"@,
        gb < 1000 || gb % 1000 != 0 ==> capacity_shown(gb) == int_text(gb as int) + " GB"@,
{
}

/// What a card says of a deal: its source, then its capacity and its condition where they
/// are known.
pub proof fn details_name_what_is_known(deal: DealView)
    ensures
        deal.capacity_gb is None && deal.condition is None ==> details_of(deal) == deal.source_id,
        deal.capacity_gb is Some && deal.condition is None ==> details_of(deal) == deal.source_id
            + " · "@ + capacity_shown(deal.capacity_gb->0),
        deal.capacity_gb is None && deal.condition is Some ==> details_of(deal) == deal.source_id
            + " · "@ + deal.condition->0,
        deal.capacity_gb is Some && deal.condition is Some ==> details_of(deal) == deal.source_id
            + " · "@ + capacity_shown(deal.capacity_gb->0) + " · "@ + deal.condition->0,
{
    let parts = seq![deal.source_id] + (match deal.capacity_gb {
        Some(gb) => seq![capacity_shown(gb)],
        None => Seq::empty(),
    }) + (match deal.condition {
        Some(c) => seq![c],
        None => Seq::empty(),
    });
    let sep = " · "@;
    if parts.len() == 1 {
        assert(parts[0] == deal.source_id);
    } else {
        let less = parts.drop_last();
        assert(joined(parts, sep) == joined(less, sep) + sep + parts.last());
        if less.len() == 1 {
            assert(joined(less, sep) == less[0]);
        } else {
            let one = less.drop_last();
            assert(joined(less, sep) == joined(one, sep) + sep + less.last());
            assert(joined(one, sep) == one[0]);
        }
    }
}

/// The user can decide everything but what they have decided, each once.
pub proof fn every_other_choice_is_offered(current: Moderation, other: Moderation)
    ensures
        choices(current).contains(other) <==> other != current,
        choices(current).len() == 2,
{
    let all = choices(current);
    assert(all[0] != all[1]);
    if other != current {
        assert(all[0] == other || all[1] == other);
    }
}

/// The watches named are those of all matches, or of those that were pushed, in order.
pub proof fn every_match_is_named(matches: Seq<MatchInfoView>, pushed: bool)
    ensures
        watch_names(matches, pushed) == matches.filter(
            |m: MatchInfoView| !pushed || m.notified_price_cents is Some,
        ).map_values(|m: MatchInfoView| m.watch_name),
    decreases matches.len(),
{
    reveal(Seq::filter);
    let p = |m: MatchInfoView| !pushed || m.notified_price_cents is Some;
    let f = |m: MatchInfoView| m.watch_name;
    if matches.len() > 0 {
        let rest = matches.drop_last();
        every_match_is_named(rest, pushed);
        if p(matches.last()) {
            assert(rest.filter(p).push(matches.last()).map_values(f) =~= rest.filter(p).map_values(
                f,
            ).push(matches.last().watch_name));
        }
    }
    assert(watch_names(matches, pushed) =~= matches.filter(p).map_values(f));
}

/// Why a match was not pushed: that it is a wanted ad goes first, then what the LLM said,
/// and only where it said nothing that the title looks stuffed.
pub proof fn reasons_come_in_order(deal: DealView)
    ensures
        deal.flags.contains(Flag::WantedAd) ==> mute_reason(deal) == Some("wanted ad"@),
        !deal.flags.contains(Flag::WantedAd) ==> {
            &&& deal.llm_verdict == Some(LlmVerdict::StuffedTitle) ==> mute_reason(deal) == Some(
                "stuffed title"@,
            )
            &&& deal.llm_verdict == Some(LlmVerdict::Scam) ==> mute_reason(deal) == Some(
                "scam verdict"@,
            )
            &&& deal.llm_verdict == Some(LlmVerdict::Irrelevant) ==> mute_reason(deal) == Some(
                "not the product"@,
            )
            &&& deal.llm_verdict == Some(LlmVerdict::Genuine) ==> mute_reason(deal) is None
            &&& deal.llm_verdict is None && deal.flags.contains(Flag::PossibleStuffing)
                ==> mute_reason(deal) == Some("possible stuffing without LLM"@)
            &&& deal.llm_verdict is None && !deal.flags.contains(Flag::PossibleStuffing)
                ==> mute_reason(deal) is None
        },
{
}

/// What became of a deal: whom it was reported to; else whom it matches and why it was
/// muted; else why it was not reported.
pub proof fn outcomes_are_told(row: DealRowView)
    ensures
        ({
            let pushed = watch_names(row.matches, true);
            let all = watch_names(row.matches, false);
            let told = outcome_of(row);
            &&& pushed.len() > 0 ==> told == badge("reported: "@ + joined(pushed, ", "@), "ok"@)
            &&& pushed.len() == 0 && row.matches.len() > 0 && mute_reason(row.deal) is Some
                ==> told == badge(
                "matched "@ + joined(all, ", "@) + (" — muted: "@ + mute_reason(row.deal)->0),
                "warn"@,
            )
            &&& pushed.len() == 0 && row.matches.len() > 0 && mute_reason(row.deal) is None
                ==> told == badge("matched "@ + joined(all, ", "@) + " — muted"@, "warn"@)
            &&& pushed.len() == 0 && row.matches.len() == 0 && row.deal.moderation
                == Moderation::Dismissed ==> told == badge(
                "not reported: dismissed by you"@,
                "muted"@,
            )
            &&& pushed.len() == 0 && row.matches.len() == 0 && row.deal.moderation
                == Moderation::Banned ==> told == badge("not reported: banned by you"@, "muted"@)
            &&& pushed.len() == 0 && row.matches.len() == 0 && row.deal.moderation
                == Moderation::Unmoderated ==> told == badge(
                "not reported: no watch matches"@,
                "muted"@,
            )
        }),
{
}

/// What stands in place of a list: that it loads, that it failed, that it is empty; nothing
/// where there is something to show.
pub proof fn notes_stand_for_empty_lists(e: Seq<char>, n: nat, hidden: bool)
    ensures
        deals_note(None, hidden) == Some("Loading…"@),
        watches_note(None) == Some("Loading…"@),
        deals_note(Some(Err(e)), hidden) == Some("server unreachable: "@ + e),
        watches_note(Some(Err(e))) == Some("server unreachable: "@ + e),
        n > 0 ==> deals_note(Some(Ok(n)), hidden) is None && watches_note(Some(Ok(n))) is None,
        deals_note(Some(Ok(0)), true) == Some("Nothing dismissed or banned."@),
        deals_note(Some(Ok(0)), false) == Some(
            "No deals yet — they appear as sources are scraped."@,
        ),
        watches_note(Some(Ok(0))) == Some("No watches yet — describe a product above."@),
{
}

/// How each filter is named.
pub proof fn filters_are_named(
    key: Seq<char>,
    bound: ReadingView,
    text: Seq<char>,
    values: Seq<Seq<char>>,
)
    ensures
        filter_label(SpecFilterView::Min { key, value: bound }) == key + " ≥ "@ + reading_text(bound),
        filter_label(SpecFilterView::Max { key, value: bound }) == key + " ≤ "@ + reading_text(bound),
        filter_label(SpecFilterView::Eq { key, value: text }) == key + " = "@ + text,
        filter_label(SpecFilterView::AnyOf { key, values }) == key + " ∈ "@ + joined(values, "/"@),
        filter_label(SpecFilterView::Is { key, value: true }) == key + ": "@ + "true"@,
        filter_label(SpecFilterView::Is { key, value: false }) == key + ": "@ + "false"@,
{
}

/// A row says everything that a watch demands: its category, each filter, its family and
/// its model, then its capacity, its prices and its queries.
pub proof fn rows_say_every_demand(watch: WatchView, i: int)
    ensures
        watch.category matches Some(c) ==> watch_labels(watch)[0] == c,
        0 <= i < watch.spec_filters.len() ==> watch_labels(watch)[i + if watch.category is Some {
            1int
        } else {
            0
        }] == filter_label(watch.spec_filters[i]),
        watch.family matches Some(f) ==> product_labels(watch).contains(f),
        watch.model matches Some(m) ==> product_labels(watch).last() == "model "@ + m,
        watch.min_capacity_gb matches Some(gb) ==> bound_labels(watch)[0] == "≥ "@ + int_text(
            gb as int,
        ) + " GB"@,
        watch.min_price_cents matches Some(c) ==> bound_labels(watch).contains(
            "≥ "@ + price_shown(c, "EUR"@),
        ),
        watch.max_price_cents matches Some(c) ==> bound_labels(watch).contains(
            "≤ "@ + price_shown(c, "EUR"@),
        ),
        watch.queries.len() > 0 ==> bound_labels(watch).last() == "searches: "@ + joined(
            watch.queries,
            ", "@,
        ),
        watch_labels(watch) == product_labels(watch) + bound_labels(watch),
        watch_labels(watch).len() == watch.spec_filters.len() + one_each(watch),
{
    let c: int = if watch.category is Some {
        1
    } else {
        0
    };
    let n = watch.spec_filters.len() as int;
    if let Some(f) = watch.family {
        assert(product_labels(watch)[c + n] == f);
    }
    let k: int = if watch.min_capacity_gb is Some {
        1
    } else {
        0
    };
    let l: int = if watch.min_price_cents is Some {
        1
    } else {
        0
    };
    if let Some(p) = watch.min_price_cents {
        assert(bound_labels(watch)[k] == "≥ "@ + price_shown(p, "EUR"@));
    }
    if let Some(p) = watch.max_price_cents {
        assert(bound_labels(watch)[k + l] == "≤ "@ + price_shown(p, "EUR"@));
    }
}

/// How many of a watch's single demands are set.
pub open spec fn one_each(watch: WatchView) -> int {
    one_if(watch.category is Some) + one_if(watch.family is Some) + one_if(watch.model is Some)
        + one_if(watch.min_capacity_gb is Some) + one_if(watch.min_price_cents is Some) + one_if(
        watch.max_price_cents is Some,
    ) + one_if(watch.queries.len() > 0)
}

/// The matches of a watch are the count that stands first under its id; none stands for
/// nothing.
pub proof fn matches_are_counted_by_id(counts: Seq<(u128, i64)>, id: u128, n: i64)
    ensures
        matches_of(seq![(id, n)] + counts, id) == n,
        (forall|i: int| 0 <= i < counts.len() ==> (#[trigger] counts[i]).0 != id) ==> matches_of(
            counts,
            id,
        ) == 0,
        counts.len() > 0 && counts[0].0 != id ==> matches_of(counts, id) == matches_of(
            counts.drop_first(),
            id,
        ),
    decreases counts.len(),
{
    assert((seq![(id, n)] + counts)[0] == (id, n));
    if counts.len() > 0 {
        let rest = counts.drop_first();
        matches_are_counted_by_id(rest, id, n);
        if forall|i: int| 0 <= i < counts.len() ==> (#[trigger] counts[i]).0 != id {
            assert forall|i: int| 0 <= i < rest.len() implies (#[trigger] rest[i]).0 != id by {
                assert(rest[i] == counts[i + 1]);
            }
        }
    }
}

} // verus!
