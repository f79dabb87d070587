//! Stored watches and deals: how their columns are written and read back.

use vstd::prelude::*;
use crate::category::{SpecFilter, SpecFilterView, SpecValueView, Specs};
use crate::db::{
    deal_names_round_trip, deal_status_from_str, deal_status_name, deal_status_named,
    deal_status_to_str, flag_from_str, flag_named, id_read, id_text, moderation_from_str,
    moderation_name, moderation_named, moderation_to_str, parse_ts, parse_uuid, rfc3339_written,
    ts_read, ts_text, uuid_written, verdict_from_str, verdict_name, verdict_named, verdict_to_str,
    verdicts_round_trip, DbError, DbErrorView,
};
use crate::db_category::{read_text_column, text_column, write_text_column};
use crate::deal::{Deal, DealStatus, DealView, Flag, LlmVerdict, Moderation};
use crate::family::StuffingScore;
use crate::json::{json_read, json_written, parse_json, text_list, texts_read, Json, JsonView};
use crate::pipeline::{flag_tags, tags_from};
use crate::schema::{
    read_variant_name, say_unknown_variant, say_wrong_value, unknown_variant, variant_name,
    wrong_value,
};
use crate::time::Timestamp;
use crate::watch::{Watch, WatchView};

verus! {

/// A stored watch.
#[derive(Debug, PartialEq)]
pub struct WatchRow {
    pub id: String,
    pub name: String,
    pub family: Option<String>,
    pub model: Option<String>,
    pub min_capacity_gb: Option<i64>,
    pub min_price_cents: Option<i64>,
    pub max_price_cents: Option<i64>,
    pub category: Option<String>,
    pub spec_filters: Vec<SpecFilter>,
    /// A JSON list of strings.
    pub queries: String,
    pub active: bool,
    pub created_at: String,
}

/// What `WatchRow` holds.
#[verifier::ext_equal]
pub struct WatchRowView {
    pub id: Seq<char>,
    pub name: Seq<char>,
    pub family: Option<Seq<char>>,
    pub model: Option<Seq<char>>,
    pub min_capacity_gb: Option<i64>,
    pub min_price_cents: Option<i64>,
    pub max_price_cents: Option<i64>,
    pub category: Option<Seq<char>>,
    pub spec_filters: Seq<SpecFilterView>,
    pub queries: Seq<char>,
    pub active: bool,
    pub created_at: Seq<char>,
}

impl DeepView for WatchRow {
    type V = WatchRowView;

    open spec fn deep_view(&self) -> WatchRowView {
        WatchRowView {
            id: self.id@,
            name: self.name@,
            family: self.family.deep_view(),
            model: self.model.deep_view(),
            min_capacity_gb: self.min_capacity_gb,
            min_price_cents: self.min_price_cents,
            max_price_cents: self.max_price_cents,
            category: self.category.deep_view(),
            spec_filters: self.spec_filters.deep_view(),
            queries: self.queries@,
            active: self.active,
            created_at: self.created_at@,
        }
    }
}

/// The watch that a row holds, or what is wrong with it.
pub open spec fn watch_in_row(row: WatchRowView) -> Result<WatchView, DbErrorView> {
    match (
        id_read(row.id),
        text_column(texts_read(row.queries), "queries"@),
        ts_read(row.created_at),
    ) {
        (Err(e), _, _) => Err(e),
        (_, Err(e), _) => Err(e),
        (_, _, Err(e)) => Err(e),
        (Ok(id), Ok(queries), Ok(created_at)) => Ok(
            WatchView {
                id,
                name: row.name,
                family: row.family,
                model: row.model,
                min_capacity_gb: row.min_capacity_gb,
                min_price_cents: row.min_price_cents,
                max_price_cents: row.max_price_cents,
                category: row.category,
                spec_filters: row.spec_filters,
                queries,
                active: row.active,
                created_at,
            },
        ),
    }
}

/// What a reading of a watch holds.
pub open spec fn watch_result(r: Result<Watch, DbError>) -> Result<WatchView, DbErrorView> {
    match r {
        Ok(w) => Ok(w.deep_view()),
        Err(e) => Err(e.deep_view()),
    }
}

/// The watch that a row holds.
pub fn row_to_watch(row: WatchRow) -> (r: Result<Watch, DbError>)
    ensures
        watch_result(r) == watch_in_row(row.deep_view()),
{
    let id = match parse_uuid(row.id.as_str()) {
        Ok(id) => id,
        Err(e) => {
            return Err(e);
        },
    };
    let queries = match read_text_column(row.queries.as_str(), "queries") {
        Ok(q) => q,
        Err(e) => {
            return Err(e);
        },
    };
    let created_at = match parse_ts(row.created_at.as_str()) {
        Ok(t) => t,
        Err(e) => {
            return Err(e);
        },
    };
    Ok(
        Watch {
            id,
            name: row.name,
            family: row.family,
            model: row.model,
            min_capacity_gb: row.min_capacity_gb,
            min_price_cents: row.min_price_cents,
            max_price_cents: row.max_price_cents,
            category: row.category,
            spec_filters: row.spec_filters,
            queries,
            active: row.active,
            created_at,
        },
    )
}

/// The row of a watch.
pub open spec fn watch_row(watch: WatchView, created_at: Seq<char>) -> WatchRowView {
    WatchRowView {
        id: uuid_written(watch.id),
        name: watch.name,
        family: watch.family,
        model: watch.model,
        min_capacity_gb: watch.min_capacity_gb,
        min_price_cents: watch.min_price_cents,
        max_price_cents: watch.max_price_cents,
        category: watch.category,
        spec_filters: watch.spec_filters,
        queries: json_written(text_list(watch.queries)),
        active: watch.active,
        created_at,
    }
}

/// The row of a watch; none where its date cannot be written. It reads back as the same
/// watch, for a date in the years 0 to 9999.
pub fn watch_to_row(watch: &Watch) -> (r: Option<WatchRow>)
    ensures
        match rfc3339_written(watch.deep_view().created_at) {
            Some(created_at) => r.deep_view() == Some(watch_row(watch.deep_view(), created_at)),
            None => r is None,
        },
        watch.deep_view().created_at.common() ==> r is Some && watch_in_row(r.deep_view()->0)
            == Ok::<WatchView, DbErrorView>(watch.deep_view()),
{
    let created_at = match ts_text(watch.created_at) {
        Some(t) => t,
        None => {
            return None;
        },
    };
    let spec_filters = watch.spec_filters.clone();
    assert(spec_filters.deep_view() =~= watch.spec_filters.deep_view());
    Some(
        WatchRow {
            id: id_text(watch.id),
            name: watch.name.clone(),
            family: watch.family.clone(),
            model: watch.model.clone(),
            min_capacity_gb: watch.min_capacity_gb,
            min_price_cents: watch.min_price_cents,
            max_price_cents: watch.max_price_cents,
            category: watch.category.clone(),
            spec_filters,
            queries: write_text_column(&watch.queries, "queries"),
            active: watch.active,
            created_at,
        },
    )
}

/// A stored deal.
#[derive(Debug, PartialEq)]
pub struct DealColumns {
    pub id: String,
    pub source_id: String,
    pub canonical_url: String,
    pub title: String,
    pub price_cents: i64,
    pub currency: String,
    pub family: Option<String>,
    /// A JSON list of strings.
    pub models: String,
    pub capacity_gb: Option<i64>,
    pub condition: Option<String>,
    pub stuffing_score: StuffingScore,
    /// A JSON list of tags.
    pub flags: String,
    pub status: String,
    pub llm_verdict: Option<String>,
    pub llm_reason: Option<String>,
    pub category: Option<String>,
    pub specs: Specs,
    pub moderation: String,
    pub first_seen: String,
    pub last_seen: String,
}

/// What `DealColumns` holds.
#[verifier::ext_equal]
pub struct DealColumnsView {
    pub id: Seq<char>,
    pub source_id: Seq<char>,
    pub canonical_url: Seq<char>,
    pub title: Seq<char>,
    pub price_cents: i64,
    pub currency: Seq<char>,
    pub family: Option<Seq<char>>,
    pub models: Seq<char>,
    pub capacity_gb: Option<i64>,
    pub condition: Option<Seq<char>>,
    pub stuffing_score: StuffingScore,
    pub flags: Seq<char>,
    pub status: Seq<char>,
    pub llm_verdict: Option<Seq<char>>,
    pub llm_reason: Option<Seq<char>>,
    pub category: Option<Seq<char>>,
    pub specs: Seq<(Seq<char>, SpecValueView)>,
    pub moderation: Seq<char>,
    pub first_seen: Seq<char>,
    pub last_seen: Seq<char>,
}

impl DeepView for DealColumns {
    type V = DealColumnsView;

    open spec fn deep_view(&self) -> DealColumnsView {
        DealColumnsView {
            id: self.id@,
            source_id: self.source_id@,
            canonical_url: self.canonical_url@,
            title: self.title@,
            price_cents: self.price_cents,
            currency: self.currency@,
            family: self.family.deep_view(),
            models: self.models@,
            capacity_gb: self.capacity_gb,
            condition: self.condition.deep_view(),
            stuffing_score: self.stuffing_score,
            flags: self.flags@,
            status: self.status@,
            llm_verdict: self.llm_verdict.deep_view(),
            llm_reason: self.llm_reason.deep_view(),
            category: self.category.deep_view(),
            specs: self.specs.deep_view(),
            moderation: self.moderation@,
            first_seen: self.first_seen@,
            last_seen: self.last_seen@,
        }
    }
}

/// The flags as a column may name them.
pub const FLAG_NAMES: &'static str = "one of `possible-stuffing`, `price-outlier`, `wanted-ad`";

/// The flag that a value names, or what is wrong with it.
pub open spec fn flag_in(v: JsonView) -> Result<Flag, Seq<char>> {
    match variant_name(v) {
        None => Err(wrong_value(v, "string or map"@)),
        Some(name) => match flag_named(name) {
            Some(flag) => Ok(flag),
            None => Err(unknown_variant(name, FLAG_NAMES@)),
        },
    }
}

/// The flags that values name, or what is wrong with the first that names none.
pub open spec fn flag_items(items: Seq<JsonView>) -> Result<Seq<Flag>, Seq<char>>
    decreases items.len(),
{
    if items.len() == 0 {
        Ok(Seq::empty())
    } else {
        match (flag_items(items.drop_last()), flag_in(items.last())) {
            (Ok(before), Ok(flag)) => Ok(before.push(flag)),
            (Err(e), _) => Err(e),
            (_, Err(e)) => Err(e),
        }
    }
}

/// The flags that a list names, or what is wrong with it.
pub open spec fn flags_in(v: JsonView) -> Result<Seq<Flag>, Seq<char>> {
    match v {
        JsonView::List(items) => flag_items(items),
        _ => Err(wrong_value(v, "a sequence"@)),
    }
}

/// What a column of flags holds, or what is wrong with it.
pub open spec fn flags_column(column: Seq<char>) -> Result<Seq<Flag>, DbErrorView> {
    let read = match json_read(column) {
        Ok(v) => flags_in(v),
        Err(e) => Err(e),
    };
    match read {
        Ok(flags) => Ok(flags),
        Err(e) => Err(DbErrorView::Corrupt("bad flags json: "@ + e)),
    }
}

/// What a column with a verdict holds, or what is wrong with it.
pub open spec fn verdict_column(column: Option<Seq<char>>) -> Result<
    Option<LlmVerdict>,
    DbErrorView,
> {
    match column {
        None => Ok(None),
        Some(s) => match verdict_named(s) {
            Some(v) => Ok(Some(v)),
            None => Err(crate::db::bad("llm verdict"@, s)),
        },
    }
}

/// The deal that a row holds, or what is wrong with it: the first column that cannot be
/// read, of the models, the flags, the status, the verdict, the moderation, the id and
/// the two dates.
pub open spec fn deal_in_row(row: DealColumnsView) -> Result<DealView, DbErrorView> {
    match text_column(texts_read(row.models), "models json"@) {
        Err(e) => Err(e),
        Ok(models) => match flags_column(row.flags) {
            Err(e) => Err(e),
            Ok(flags) => match deal_status_named(row.status) {
                None => Err(crate::db::bad("deal status"@, row.status)),
                Some(status) => match verdict_column(row.llm_verdict) {
                    Err(e) => Err(e),
                    Ok(llm_verdict) => match moderation_named(row.moderation) {
                        None => Err(crate::db::bad("moderation"@, row.moderation)),
                        Some(moderation) => match (
                            id_read(row.id),
                            ts_read(row.first_seen),
                            ts_read(row.last_seen),
                        ) {
                            (Err(e), _, _) => Err(e),
                            (_, Err(e), _) => Err(e),
                            (_, _, Err(e)) => Err(e),
                            (Ok(id), Ok(first_seen), Ok(last_seen)) => Ok(
                                DealView {
                                    id,
                                    source_id: row.source_id,
                                    canonical_url: row.canonical_url,
                                    title: row.title,
                                    price_cents: row.price_cents,
                                    currency: row.currency,
                                    family: row.family,
                                    models,
                                    capacity_gb: row.capacity_gb,
                                    condition: row.condition,
                                    stuffing_score: row.stuffing_score,
                                    flags,
                                    status,
                                    llm_verdict,
                                    llm_reason: row.llm_reason,
                                    category: row.category,
                                    specs: row.specs,
                                    moderation,
                                    first_seen,
                                    last_seen,
                                },
                            ),
                        },
                    },
                },
            },
        },
    }
}

/// What a reading of a deal holds.
pub open spec fn deal_result(r: Result<Deal, DbError>) -> Result<DealView, DbErrorView> {
    match r {
        Ok(d) => Ok(d.deep_view()),
        Err(e) => Err(e.deep_view()),
    }
}

fn read_flag(v: &Json) -> (r: Result<Flag, String>)
    ensures
        match (r, flag_in(v.deep_view())) {
            (Ok(flag), Ok(f)) => flag == f,
            (Err(e), Err(fault)) => e@ == fault,
            _ => false,
        },
{
    match read_variant_name(v) {
        None => Err(say_wrong_value(v, "string or map")),
        Some(name) => match flag_from_str(name) {
            Some(flag) => Ok(flag),
            None => Err(say_unknown_variant(name, FLAG_NAMES)),
        },
    }
}

/// A value that names no flag spoils every list that holds it.
proof fn misfit_spoils_flags(items: Seq<JsonView>, n: int)
    requires
        0 <= n <= items.len(),
        flag_items(items.take(n)) is Err,
    ensures
        flag_items(items) == flag_items(items.take(n)),
    decreases items.len() - n,
{
    if n < items.len() {
        assert(items.take(n + 1).drop_last() =~= items.take(n));
        misfit_spoils_flags(items, n + 1);
    } else {
        assert(items.take(n) =~= items);
    }
}

/// What a reading of flags holds.
pub open spec fn flags_result(r: Result<Vec<Flag>, String>) -> Result<Seq<Flag>, Seq<char>> {
    match r {
        Ok(flags) => Ok(flags@),
        Err(e) => Err(e@),
    }
}

/// The flags that a list names, or what is wrong with it.
pub fn flags_from(v: &Json) -> (r: Result<Vec<Flag>, String>)
    ensures
        flags_result(r) == flags_in(v.deep_view()),
{
    let items = match v.as_list() {
        Some(items) => items,
        None => {
            return Err(say_wrong_value(v, "a sequence"));
        },
    };
    let ghost all = items.deep_view();
    let mut out: Vec<Flag> = Vec::new();
    let mut i: usize = 0;
    assert(all.take(0) =~= Seq::empty());
    while i < items.len()
        invariant
            i <= items@.len(),
            all == items.deep_view(),
            v.deep_view() == JsonView::List(all),
            flag_items(all.take(i as int)) == Ok::<Seq<Flag>, Seq<char>>(out@),
        decreases items@.len() - i,
    {
        assert(all.take(i + 1).drop_last() =~= all.take(i as int));
        assert(all.take(i + 1).last() == items@[i as int].deep_view());
        match read_flag(&items[i]) {
            Ok(flag) => {
                out.push(flag);
            },
            Err(e) => {
                proof {
                    misfit_spoils_flags(all, i + 1);
                }
                return Err(e);
            },
        }
        i = i + 1;
    }
    assert(all.take(all.len() as int) =~= all);
    Ok(out)
}

fn read_flags(column: &str) -> (r: Result<Vec<Flag>, DbError>)
    ensures
        match (r, flags_column(column@)) {
            (Ok(flags), Ok(f)) => flags@ == f,
            (Err(e), Err(m)) => e.deep_view() == m,
            _ => false,
        },
{
    let read = match parse_json(column) {
        Ok(v) => flags_from(&v),
        Err(e) => Err(e),
    };
    match read {
        Ok(flags) => Ok(flags),
        Err(e) => {
            let mut m = "bad flags json: ".to_owned();
            m.append(e.as_str());
            Err(DbError::Corrupt(m))
        },
    }
}

fn read_verdict(column: &Option<String>) -> (r: Result<Option<LlmVerdict>, DbError>)
    ensures
        match (r, verdict_column(column.deep_view())) {
            (Ok(v), Ok(w)) => v == w,
            (Err(e), Err(m)) => e.deep_view() == m,
            _ => false,
        },
{
    match column {
        None => Ok(None),
        Some(s) => match verdict_from_str(s.as_str()) {
            Ok(v) => Ok(Some(v)),
            Err(e) => Err(e),
        },
    }
}

/// The deal that a row holds.
pub fn row_to_deal(row: DealColumns) -> (r: Result<Deal, DbError>)
    ensures
        deal_result(r) == deal_in_row(row.deep_view()),
{
    let models = match read_text_column(row.models.as_str(), "models json") {
        Ok(v) => v,
        Err(e) => {
            return Err(e);
        },
    };
    let flags = match read_flags(row.flags.as_str()) {
        Ok(v) => v,
        Err(e) => {
            return Err(e);
        },
    };
    let status = match deal_status_from_str(row.status.as_str()) {
        Ok(v) => v,
        Err(e) => {
            return Err(e);
        },
    };
    let llm_verdict = match read_verdict(&row.llm_verdict) {
        Ok(v) => v,
        Err(e) => {
            return Err(e);
        },
    };
    let moderation = match moderation_from_str(row.moderation.as_str()) {
        Ok(v) => v,
        Err(e) => {
            return Err(e);
        },
    };
    let id = match parse_uuid(row.id.as_str()) {
        Ok(v) => v,
        Err(e) => {
            return Err(e);
        },
    };
    let first_seen = match parse_ts(row.first_seen.as_str()) {
        Ok(v) => v,
        Err(e) => {
            return Err(e);
        },
    };
    let last_seen = match parse_ts(row.last_seen.as_str()) {
        Ok(v) => v,
        Err(e) => {
            return Err(e);
        },
    };
    Ok(
        Deal {
            id,
            source_id: row.source_id,
            canonical_url: row.canonical_url,
            title: row.title,
            price_cents: row.price_cents,
            currency: row.currency,
            family: row.family,
            models,
            capacity_gb: row.capacity_gb,
            condition: row.condition,
            stuffing_score: row.stuffing_score,
            flags,
            status,
            llm_verdict,
            llm_reason: row.llm_reason,
            category: row.category,
            specs: row.specs,
            moderation,
            first_seen,
            last_seen,
        },
    )
}

proof fn tags_read_back(flags: Seq<Flag>)
    ensures
        flags_in(text_list(flag_tags(flags))) == Ok::<Seq<Flag>, Seq<char>>(flags),
    decreases flags.len(),
{
    let items = text_list(flag_tags(flags))->List_0;
    if flags.len() > 0 {
        let rest = flags.drop_last();
        tags_read_back(rest);
        assert(items.drop_last() =~= text_list(flag_tags(rest))->List_0);
        deal_names_round_trip(DealStatus::Active, Moderation::Unmoderated, flags.last());
        assert(rest.push(flags.last()) =~= flags);
    } else {
        assert(items =~= Seq::empty());
        assert(flags =~= Seq::empty());
    }
}

/// The row of a deal.
pub open spec fn deal_row(
    deal: DealView,
    first_seen: Seq<char>,
    last_seen: Seq<char>,
) -> DealColumnsView {
    DealColumnsView {
        id: uuid_written(deal.id),
        source_id: deal.source_id,
        canonical_url: deal.canonical_url,
        title: deal.title,
        price_cents: deal.price_cents,
        currency: deal.currency,
        family: deal.family,
        models: json_written(text_list(deal.models)),
        capacity_gb: deal.capacity_gb,
        condition: deal.condition,
        stuffing_score: deal.stuffing_score,
        flags: json_written(text_list(flag_tags(deal.flags))),
        status: deal_status_name(deal.status),
        llm_verdict: match deal.llm_verdict {
            Some(v) => Some(verdict_name(v)),
            None => None,
        },
        llm_reason: deal.llm_reason,
        category: deal.category,
        specs: deal.specs,
        moderation: moderation_name(deal.moderation),
        first_seen,
        last_seen,
    }
}

/// The row of a deal; none where one of its dates cannot be written. It reads back as the
/// same deal, for dates in the years 0 to 9999.
pub fn deal_to_row(deal: &Deal) -> (r: Option<DealColumns>)
    ensures
        match (
            rfc3339_written(deal.deep_view().first_seen),
            rfc3339_written(deal.deep_view().last_seen),
        ) {
            (Some(first), Some(last)) => r.deep_view() == Some(
                deal_row(deal.deep_view(), first, last),
            ),
            _ => r is None,
        },
        deal.deep_view().first_seen.common() && deal.deep_view().last_seen.common() ==> r is Some
            && deal_in_row(r.deep_view()->0) == Ok::<DealView, DbErrorView>(deal.deep_view()),
{
    let first_seen = match ts_text(deal.first_seen) {
        Some(t) => t,
        None => {
            return None;
        },
    };
    let last_seen = match ts_text(deal.last_seen) {
        Some(t) => t,
        None => {
            return None;
        },
    };
    let tags = tags_from(&deal.flags);
    let llm_verdict = match deal.llm_verdict {
        Some(v) => Some(verdict_to_str(v).to_owned()),
        None => None,
    };
    proof {
        tags_read_back(deal.flags@);
        deal_names_round_trip(deal.status, deal.moderation, Flag::WantedAd);
        if let Some(v) = deal.llm_verdict {
            verdicts_round_trip(v);
        }
    }
    Some(
        DealColumns {
            id: id_text(deal.id),
            source_id: deal.source_id.clone(),
            canonical_url: deal.canonical_url.clone(),
            title: deal.title.clone(),
            price_cents: deal.price_cents,
            currency: deal.currency.clone(),
            family: deal.family.clone(),
            models: write_text_column(&deal.models, "models json"),
            capacity_gb: deal.capacity_gb,
            condition: deal.condition.clone(),
            stuffing_score: deal.stuffing_score,
            flags: write_text_column(&tags, "flags json"),
            status: deal_status_to_str(deal.status).to_owned(),
            llm_verdict,
            llm_reason: deal.llm_reason.clone(),
            category: deal.category.clone(),
            specs: deal.specs.clone(),
            moderation: moderation_to_str(deal.moderation).to_owned(),
            first_seen,
            last_seen,
        },
    )
}

/// Each column of a watch's row holds the part of the watch of its name.
pub proof fn watch_columns(watch: WatchView, created_at: Seq<char>)
    ensures
        ({
            let row = watch_row(watch, created_at);
            &&& row.id == uuid_written(watch.id)
            &&& row.name == watch.name
            &&& row.family == watch.family
            &&& row.model == watch.model
            &&& row.min_capacity_gb == watch.min_capacity_gb
            &&& row.min_price_cents == watch.min_price_cents
            &&& row.max_price_cents == watch.max_price_cents
            &&& row.category == watch.category
            &&& row.spec_filters == watch.spec_filters
            &&& row.active == watch.active
            &&& row.queries == json_written(text_list(watch.queries))
            &&& row.created_at == created_at
        }),
{
}

/// A watch is made of the columns of its row, where its id, its queries and its date can
/// be read; where they cannot, the first of them says why.
pub proof fn watches_are_read_by_column(row: WatchRowView)
    ensures
        watch_in_row(row) is Ok <==> id_read(row.id) is Ok && texts_read(row.queries) is Ok
            && ts_read(row.created_at) is Ok,
        watch_in_row(row) matches Ok(watch) ==> {
            &&& id_read(row.id) == Ok::<u128, DbErrorView>(watch.id)
            &&& watch.name == row.name
            &&& watch.family == row.family
            &&& watch.model == row.model
            &&& watch.min_capacity_gb == row.min_capacity_gb
            &&& watch.min_price_cents == row.min_price_cents
            &&& watch.max_price_cents == row.max_price_cents
            &&& watch.category == row.category
            &&& watch.spec_filters == row.spec_filters
            &&& watch.active == row.active
            &&& texts_read(row.queries) == Ok::<Seq<Seq<char>>, Seq<char>>(watch.queries)
            &&& ts_read(row.created_at) == Ok::<Timestamp, DbErrorView>(watch.created_at)
        },
        id_read(row.id) matches Err(e) ==> watch_in_row(row) == Err::<WatchView, DbErrorView>(e),
        id_read(row.id) is Ok ==> (texts_read(row.queries) matches Err(e) ==> watch_in_row(row)
            == Err::<WatchView, DbErrorView>(DbErrorView::Corrupt("bad queries: "@ + e))),
{
    reveal_strlit("bad ");
    reveal_strlit("queries");
    reveal_strlit(": ");
    reveal_strlit("bad queries: ");
    assert("bad "@ + "queries"@ + ": "@ =~= "bad queries: "@);
}

/// Each column of a deal's row holds the part of the deal of its name.
pub proof fn deal_columns(deal: DealView, first_seen: Seq<char>, last_seen: Seq<char>)
    ensures
        ({
            let row = deal_row(deal, first_seen, last_seen);
            &&& row.id == uuid_written(deal.id)
            &&& row.source_id == deal.source_id
            &&& row.canonical_url == deal.canonical_url
            &&& row.title == deal.title
            &&& row.price_cents == deal.price_cents
            &&& row.currency == deal.currency
            &&& row.family == deal.family
            &&& row.capacity_gb == deal.capacity_gb
            &&& row.condition == deal.condition
            &&& row.stuffing_score == deal.stuffing_score
            &&& row.llm_reason == deal.llm_reason
            &&& row.category == deal.category
            &&& row.specs == deal.specs
            &&& row.models == json_written(text_list(deal.models))
            &&& row.flags == json_written(text_list(flag_tags(deal.flags)))
            &&& row.status == deal_status_name(deal.status)
            &&& row.llm_verdict is Some <==> deal.llm_verdict is Some
            &&& row.llm_verdict is Some ==> row.llm_verdict->0 == verdict_name(deal.llm_verdict->0)
            &&& row.moderation == moderation_name(deal.moderation)
            &&& row.first_seen == first_seen
            &&& row.last_seen == last_seen
        }),
{
}

/// A deal is made of the columns of its row, where each of those that have to be read can
/// be.
pub proof fn deals_are_read_by_column(row: DealColumnsView)
    ensures
        deal_in_row(row) is Ok <==> texts_read(row.models) is Ok && flags_column(row.flags) is Ok
            && deal_status_named(row.status) is Some && verdict_column(row.llm_verdict) is Ok
            && moderation_named(row.moderation) is Some && id_read(row.id) is Ok && ts_read(
            row.first_seen,
        ) is Ok && ts_read(row.last_seen) is Ok,
        deal_in_row(row) matches Ok(deal) ==> {
            &&& id_read(row.id) == Ok::<u128, DbErrorView>(deal.id)
            &&& deal.source_id == row.source_id
            &&& deal.canonical_url == row.canonical_url
            &&& deal.title == row.title
            &&& deal.price_cents == row.price_cents
            &&& deal.currency == row.currency
            &&& deal.family == row.family
            &&& deal.capacity_gb == row.capacity_gb
            &&& deal.condition == row.condition
            &&& deal.stuffing_score == row.stuffing_score
            &&& deal.llm_reason == row.llm_reason
            &&& deal.category == row.category
            &&& deal.specs == row.specs
            &&& texts_read(row.models) == Ok::<Seq<Seq<char>>, Seq<char>>(deal.models)
            &&& flags_column(row.flags) == Ok::<Seq<Flag>, DbErrorView>(deal.flags)
            &&& deal_status_named(row.status) == Some(deal.status)
            &&& verdict_column(row.llm_verdict) == Ok::<Option<LlmVerdict>, DbErrorView>(
                deal.llm_verdict,
            )
            &&& moderation_named(row.moderation) == Some(deal.moderation)
            &&& ts_read(row.first_seen) == Ok::<Timestamp, DbErrorView>(deal.first_seen)
            &&& ts_read(row.last_seen) == Ok::<Timestamp, DbErrorView>(deal.last_seen)
        },
{
}

/// A list of flags reads exactly where each does, as theirs in order.
pub proof fn each_flag_is_read(items: Seq<JsonView>)
    ensures
        flag_items(items) is Ok <==> forall|i: int|
            0 <= i < items.len() ==> flag_in(#[trigger] items[i]) is Ok,
        flag_items(items) matches Ok(all) ==> all.len() == items.len() && forall|i: int|
            0 <= i < items.len() ==> flag_in(#[trigger] items[i]) == Ok::<Flag, Seq<char>>(all[i]),
    decreases items.len(),
{
    if items.len() > 0 {
        let rest = items.drop_last();
        each_flag_is_read(rest);
        let n = items.len() - 1;
        assert(items[n] == items.last());
        if let Ok(all) = flag_items(items) {
            assert forall|i: int| 0 <= i < items.len() implies flag_in(#[trigger] items[i]) == Ok::<
                Flag,
                Seq<char>,
            >(all[i]) by {
                if i < n {
                    assert(rest[i] == items[i]);
                }
            }
        }
        if forall|i: int| 0 <= i < items.len() ==> flag_in(#[trigger] items[i]) is Ok {
            assert forall|i: int| 0 <= i < rest.len() implies flag_in(#[trigger] rest[i]) is Ok by {
                assert(rest[i] == items[i]);
            }
        }
    }
}

/// A column of flags holds a JSON list of their names; anything else is a fault that says
/// so. A verdict may be missing, and is else one of its names.
pub proof fn flags_and_verdicts_are_read(
    column: Seq<char>,
    items: Seq<JsonView>,
    e: Seq<char>,
    v: JsonView,
    name: Seq<char>,
)
    ensures
        json_read(column) == Ok::<JsonView, Seq<char>>(JsonView::List(items)) ==> (flag_items(items)
            matches Ok(flags) ==> flags_column(column) == Ok::<Seq<Flag>, DbErrorView>(flags)),
        json_read(column) == Ok::<JsonView, Seq<char>>(JsonView::List(items)) ==> (flag_items(items)
            matches Err(why) ==> flags_column(column) == Err::<Seq<Flag>, DbErrorView>(
            DbErrorView::Corrupt("bad flags json: "@ + why),
        )),
        json_read(column) == Err::<JsonView, Seq<char>>(e) ==> flags_column(column) == Err::<
            Seq<Flag>,
            DbErrorView,
        >(DbErrorView::Corrupt("bad flags json: "@ + e)),
        json_read(column) == Ok::<JsonView, Seq<char>>(v) && !(v is List) ==> flags_column(column)
            == Err::<Seq<Flag>, DbErrorView>(
            DbErrorView::Corrupt("bad flags json: "@ + wrong_value(v, "a sequence"@)),
        ),
        flag_named(name) matches Some(flag) ==> flag_in(JsonView::Text(name)) == Ok::<
            Flag,
            Seq<char>,
        >(flag),
        flag_named(name) is None ==> flag_in(JsonView::Text(name)) == Err::<Flag, Seq<char>>(
            unknown_variant(name, "one of `possible-stuffing`, `price-outlier`, `wanted-ad`"@),
        ),
        verdict_column(None) == Ok::<Option<LlmVerdict>, DbErrorView>(None),
        verdict_named(name) matches Some(said) ==> verdict_column(Some(name)) == Ok::<
            Option<LlmVerdict>,
            DbErrorView,
        >(Some(said)),
        verdict_named(name) is None ==> verdict_column(Some(name)) == Err::<
            Option<LlmVerdict>,
            DbErrorView,
        >(crate::db::bad("llm verdict"@, name)),
{
}

/// The first column of a deal's row that cannot be read says why the row cannot be.
pub proof fn the_first_bad_column_is_told(row: DealColumnsView)
    ensures
        texts_read(row.models) matches Err(e) ==> deal_in_row(row) == Err::<DealView, DbErrorView>(
            DbErrorView::Corrupt("bad "@ + "models json"@ + ": "@ + e),
        ),
        texts_read(row.models) is Ok ==> (flags_column(row.flags) matches Err(e) ==> deal_in_row(row)
            == Err::<DealView, DbErrorView>(e)),
        texts_read(row.models) is Ok && flags_column(row.flags) is Ok && deal_status_named(
            row.status,
        ) is None ==> deal_in_row(row) == Err::<DealView, DbErrorView>(
            crate::db::bad("deal status"@, row.status),
        ),
        texts_read(row.models) is Ok && flags_column(row.flags) is Ok && deal_status_named(
            row.status,
        ) is Some ==> (verdict_column(row.llm_verdict) matches Err(e) ==> deal_in_row(row) == Err::<
            DealView,
            DbErrorView,
        >(e)),
        texts_read(row.models) is Ok && flags_column(row.flags) is Ok && deal_status_named(
            row.status,
        ) is Some && verdict_column(row.llm_verdict) is Ok && moderation_named(row.moderation)
            is None ==> deal_in_row(row) == Err::<DealView, DbErrorView>(
            crate::db::bad("moderation"@, row.moderation),
        ),
{
}

} // verus!
