//! Stored rows: how domain values are written to text columns and read back.

use vstd::prelude::*;
use crate::deal::{DealStatus, Flag, LlmVerdict, Moderation};
use crate::pipeline::tag_of;
use crate::text::{hex_digit, same};
use crate::time::Timestamp;

verus! {

/// What can go wrong with stored data.
#[derive(Debug, PartialEq)]
pub enum DbError {
    NotFound,
    /// What is stored cannot be read.
    Corrupt(String),
}

/// What `DbError` holds.
pub enum DbErrorView {
    NotFound,
    Corrupt(Seq<char>),
}

impl DeepView for DbError {
    type V = DbErrorView;

    open spec fn deep_view(&self) -> DbErrorView {
        match self {
            DbError::NotFound => DbErrorView::NotFound,
            DbError::Corrupt(m) => DbErrorView::Corrupt(m@),
        }
    }
}

/// What `{:?}` writes for a text: quoted, with escapes.
pub uninterp spec fn quoted(s: Seq<char>) -> Seq<char>;

/// The `Debug` form of a `str`: it depends on the text alone.
#[verifier::external_body]
pub(crate) fn quote(s: &str) -> (r: String)
    ensures
        r@ == quoted(s@),
{
    format!("{s:?}")
}

/// The stored name of a verdict.
pub open spec fn verdict_name(verdict: LlmVerdict) -> Seq<char> {
    match verdict {
        LlmVerdict::Genuine => "genuine"@,
        LlmVerdict::StuffedTitle => "stuffed-title"@,
        LlmVerdict::Scam => "scam"@,
        LlmVerdict::Irrelevant => "irrelevant"@,
    }
}

/// The verdict of a stored name.
pub open spec fn verdict_named(s: Seq<char>) -> Option<LlmVerdict> {
    if s == "genuine"@ {
        Some(LlmVerdict::Genuine)
    } else if s == "stuffed-title"@ {
        Some(LlmVerdict::StuffedTitle)
    } else if s == "scam"@ {
        Some(LlmVerdict::Scam)
    } else if s == "irrelevant"@ {
        Some(LlmVerdict::Irrelevant)
    } else {
        None
    }
}

/// The stored name of a verdict.
pub fn verdict_to_str(verdict: LlmVerdict) -> (r: &'static str)
    ensures
        r@ == verdict_name(verdict),
{
    match verdict {
        LlmVerdict::Genuine => "genuine",
        LlmVerdict::StuffedTitle => "stuffed-title",
        LlmVerdict::Scam => "scam",
        LlmVerdict::Irrelevant => "irrelevant",
    }
}

/// A corrupt column: what it should hold, and what it holds.
pub open spec fn bad(what: Seq<char>, value: Seq<char>) -> DbErrorView {
    DbErrorView::Corrupt("bad "@ + what + " "@ + quoted(value))
}

/// A corrupt column: what it should hold, and what it holds.
pub fn bad_value(what: &str, value: &str) -> (r: DbError)
    ensures
        r.deep_view() == bad(what@, value@),
{
    let mut m = "bad ".to_owned();
    m.append(what);
    m.append(" ");
    m.append(quote(value).as_str());
    DbError::Corrupt(m)
}

/// The verdict of a stored name.
pub fn verdict_from_str(s: &str) -> (r: Result<LlmVerdict, DbError>)
    ensures
        match r {
            Ok(v) => verdict_named(s@) == Some(v),
            Err(e) => verdict_named(s@) is None && e.deep_view() == bad("llm verdict"@, s@),
        },
{
    if same(s, "genuine") {
        Ok(LlmVerdict::Genuine)
    } else if same(s, "stuffed-title") {
        Ok(LlmVerdict::StuffedTitle)
    } else if same(s, "scam") {
        Ok(LlmVerdict::Scam)
    } else if same(s, "irrelevant") {
        Ok(LlmVerdict::Irrelevant)
    } else {
        Err(bad_value("llm verdict", s))
    }
}

/// Every verdict is read back from its stored name.
pub proof fn verdicts_round_trip(verdict: LlmVerdict)
    ensures
        verdict_named(verdict_name(verdict)) == Some(verdict),
{
    reveal_strlit("genuine");
    reveal_strlit("stuffed-title");
    reveal_strlit("scam");
    reveal_strlit("irrelevant");
    assert("genuine"@.len() == 7 && "stuffed-title"@.len() == 13 && "scam"@.len() == 4
        && "irrelevant"@.len() == 10);
}

/// What `uuid::Uuid::parse_str` reads from a text: the id, or the error's message.
pub uninterp spec fn uuid_read(s: Seq<char>) -> Result<u128, Seq<char>>;

/// The last `len` hexadecimal digits of `n`, in small letters.
pub open spec fn hex_digits(n: nat, len: nat) -> Seq<char>
    decreases len,
{
    if len == 0 {
        Seq::empty()
    } else {
        hex_digits(n / 16, (len - 1) as nat).push(hex_digit(n % 16, 'a'))
    }
}

/// An id as text: its 32 hexadecimal digits in groups of eight, four, four, four and
/// twelve.
pub open spec fn uuid_written(id: u128) -> Seq<char> {
    let h = hex_digits(id as nat, 32);
    h.subrange(0, 8) + seq!['-'] + h.subrange(8, 12) + seq!['-'] + h.subrange(12, 16) + seq!['-']
        + h.subrange(16, 20) + seq!['-'] + h.subrange(20, 32)
}

/// What a reading of an id holds.
pub open spec fn id_result(r: Result<u128, String>) -> Result<u128, Seq<char>> {
    match r {
        Ok(id) => Ok(id),
        Err(e) => Err(e@),
    }
}

/// `uuid::Uuid::parse_str`: the id, or the error's message, depends on the text alone.
#[verifier::external_body]
fn read_uuid(s: &str) -> (r: Result<u128, String>)
    ensures
        id_result(r) == uuid_read(s@),
{
    uuid::Uuid::parse_str(s).map(|u| u.as_u128()).map_err(|e| e.to_string())
}

/// Whether a text is read as `id`.
pub open spec fn reads_as(s: Seq<char>, id: u128) -> bool {
    uuid_read(s) == Ok::<u128, Seq<char>>(id)
}

/// `uuid::Uuid`'s `to_string`: the hyphenated text in small letters, from which
/// `parse_str` reads the id back.
#[verifier::external_body]
pub(crate) fn write_uuid(id: u128) -> (r: String)
    ensures
        r@ == uuid_written(id),
        reads_as(r@, id),
{
    uuid::Uuid::from_u128(id).to_string()
}

/// A corrupt column: what it should hold, what it holds, and why that cannot be read.
pub open spec fn bad_because(what: Seq<char>, value: Seq<char>, why: Seq<char>) -> DbErrorView {
    DbErrorView::Corrupt("bad "@ + what + " "@ + quoted(value) + ": "@ + why)
}

/// A corrupt column: what it should hold, what it holds, and why that cannot be read.
fn bad_value_because(what: &str, value: &str, why: &str) -> (r: DbError)
    ensures
        r.deep_view() == bad_because(what@, value@, why@),
{
    let mut m = "bad ".to_owned();
    m.append(what);
    m.append(" ");
    m.append(quote(value).as_str());
    m.append(": ");
    m.append(why);
    DbError::Corrupt(m)
}

/// The id that a column holds, or what is wrong with it.
pub open spec fn id_read(s: Seq<char>) -> Result<u128, DbErrorView> {
    match uuid_read(s) {
        Ok(id) => Ok(id),
        Err(e) => Err(bad_because("uuid"@, s, e)),
    }
}

/// The id that a column holds.
pub fn parse_uuid(s: &str) -> (r: Result<u128, DbError>)
    ensures
        match (r, id_read(s@)) {
            (Ok(id), Ok(i)) => id == i,
            (Err(e), Err(m)) => e.deep_view() == m,
            _ => false,
        },
{
    match read_uuid(s) {
        Ok(id) => Ok(id),
        Err(e) => Err(bad_value_because("uuid", s, e.as_str())),
    }
}

/// The text of an id.
pub fn id_text(id: u128) -> (r: String)
    ensures
        r@ == uuid_written(id),
        id_read(r@) matches Ok(i) && i == id,
{
    write_uuid(id)
}

/// What `chrono::DateTime::parse_from_rfc3339` reads from a text: the instant in UTC, or
/// the error's message.
pub uninterp spec fn rfc3339_read(s: Seq<char>) -> Result<Timestamp, Seq<char>>;

/// What a reading of an instant holds.
pub open spec fn instant_result(r: Result<Timestamp, String>) -> Result<Timestamp, Seq<char>> {
    match r {
        Ok(t) => Ok(t),
        Err(e) => Err(e@),
    }
}

/// `chrono::DateTime::parse_from_rfc3339`, in UTC: the instant, or the error's message,
/// depends on the text alone.
#[verifier::external_body]
fn read_rfc3339(s: &str) -> (r: Result<Timestamp, String>)
    ensures
        instant_result(r) == rfc3339_read(s@),
{
    chrono::DateTime::parse_from_rfc3339(s)
        .map(|t| Timestamp { seconds: t.timestamp(), nanos: t.timestamp_subsec_nanos() })
        .map_err(|e| e.to_string())
}

/// The instant that a column holds, or what is wrong with it.
pub open spec fn ts_read(s: Seq<char>) -> Result<Timestamp, DbErrorView> {
    match rfc3339_read(s) {
        Ok(t) => Ok(t),
        Err(e) => Err(bad_because("timestamp"@, s, e)),
    }
}

/// The instant that a column holds.
pub fn parse_ts(s: &str) -> (r: Result<Timestamp, DbError>)
    ensures
        match (r, ts_read(s@)) {
            (Ok(t), Ok(v)) => t == v,
            (Err(e), Err(m)) => e.deep_view() == m,
            _ => false,
        },
{
    match read_rfc3339(s) {
        Ok(t) => Ok(t),
        Err(e) => Err(bad_value_because("timestamp", s, e.as_str())),
    }
}

/// What `chrono::DateTime<Utc>::to_rfc3339` writes for an instant; none where the crate
/// cannot represent it.
pub uninterp spec fn rfc3339_written(t: Timestamp) -> Option<Seq<char>>;

/// Whether what was written is read as `t`.
pub open spec fn instant_reads_as(written: Option<Seq<char>>, t: Timestamp) -> bool {
    match written {
        Some(s) => rfc3339_read(s) == Ok::<Timestamp, Seq<char>>(t),
        None => false,
    }
}

/// `chrono::DateTime::from_timestamp` and `to_rfc3339`: the text depends on the instant
/// alone, and in the years 0 to 9999 there is one, from which `parse_from_rfc3339` reads
/// the instant back.
#[verifier::external_body]
fn write_rfc3339(t: Timestamp) -> (r: Option<String>)
    ensures
        r.deep_view() == rfc3339_written(t),
        t.common() ==> instant_reads_as(r.deep_view(), t),
{
    chrono::DateTime::from_timestamp(t.seconds, t.nanos).map(|d| d.to_rfc3339())
}

/// The text of an instant; none where it cannot be written. In the years 0 to 9999 it
/// reads back as the same instant.
pub fn ts_text(t: Timestamp) -> (r: Option<String>)
    ensures
        r.deep_view() == rfc3339_written(t),
        t.common() ==> instant_reads_as(r.deep_view(), t),
{
    write_rfc3339(t)
}

/// What `chrono::DateTime<Utc>::format` writes for the day of an instant, as
/// year-month-day; none where the crate cannot represent it.
pub uninterp spec fn day_written(t: Timestamp) -> Option<Seq<char>>;

/// `chrono::DateTime::from_timestamp` and `format` with `%Y-%m-%d`: the text depends on the
/// instant alone, and in the years 0 to 9999 there is one.
#[verifier::external_body]
fn write_day(t: Timestamp) -> (r: Option<String>)
    ensures
        r.deep_view() == day_written(t),
        t.common() ==> r is Some,
{
    chrono::DateTime::from_timestamp(t.seconds, t.nanos).map(|d| d.format("%Y-%m-%d").to_string())
}

/// The day that a price seen at `t` counts for; none where it cannot be written, which is
/// never in the years 0 to 9999.
pub fn day_text(t: Timestamp) -> (r: Option<String>)
    ensures
        r.deep_view() == day_written(t),
        t.common() ==> r is Some,
{
    write_day(t)
}

/// The stored name of a deal's status.
pub open spec fn deal_status_name(status: DealStatus) -> Seq<char> {
    match status {
        DealStatus::Active => "active"@,
        DealStatus::Gone => "gone"@,
    }
}

/// The status of a stored name.
pub open spec fn deal_status_named(s: Seq<char>) -> Option<DealStatus> {
    if s == "active"@ {
        Some(DealStatus::Active)
    } else if s == "gone"@ {
        Some(DealStatus::Gone)
    } else {
        None
    }
}

/// The stored name of a deal's status.
pub fn deal_status_to_str(status: DealStatus) -> (r: &'static str)
    ensures
        r@ == deal_status_name(status),
{
    match status {
        DealStatus::Active => "active",
        DealStatus::Gone => "gone",
    }
}

/// The status of a stored name.
pub fn deal_status_from_str(s: &str) -> (r: Result<DealStatus, DbError>)
    ensures
        match r {
            Ok(v) => deal_status_named(s@) == Some(v),
            Err(e) => deal_status_named(s@) is None && e.deep_view() == bad("deal status"@, s@),
        },
{
    if same(s, "active") {
        Ok(DealStatus::Active)
    } else if same(s, "gone") {
        Ok(DealStatus::Gone)
    } else {
        Err(bad_value("deal status", s))
    }
}

/// The stored name of what the user decided.
pub open spec fn moderation_name(moderation: Moderation) -> Seq<char> {
    match moderation {
        Moderation::Unmoderated => "none"@,
        Moderation::Dismissed => "dismissed"@,
        Moderation::Banned => "banned"@,
    }
}

/// What the user decided, from its stored name.
pub open spec fn moderation_named(s: Seq<char>) -> Option<Moderation> {
    if s == "none"@ {
        Some(Moderation::Unmoderated)
    } else if s == "dismissed"@ {
        Some(Moderation::Dismissed)
    } else if s == "banned"@ {
        Some(Moderation::Banned)
    } else {
        None
    }
}

/// The stored name of what the user decided.
pub fn moderation_to_str(moderation: Moderation) -> (r: &'static str)
    ensures
        r@ == moderation_name(moderation),
{
    match moderation {
        Moderation::Unmoderated => "none",
        Moderation::Dismissed => "dismissed",
        Moderation::Banned => "banned",
    }
}

/// What the user decided, from its stored name.
pub fn moderation_from_str(s: &str) -> (r: Result<Moderation, DbError>)
    ensures
        match r {
            Ok(v) => moderation_named(s@) == Some(v),
            Err(e) => moderation_named(s@) is None && e.deep_view() == bad("moderation"@, s@),
        },
{
    if same(s, "none") {
        Ok(Moderation::Unmoderated)
    } else if same(s, "dismissed") {
        Ok(Moderation::Dismissed)
    } else if same(s, "banned") {
        Ok(Moderation::Banned)
    } else {
        Err(bad_value("moderation", s))
    }
}

/// The flag of a stored tag.
pub open spec fn flag_named(s: Seq<char>) -> Option<Flag> {
    if s == "possible-stuffing"@ {
        Some(Flag::PossibleStuffing)
    } else if s == "price-outlier"@ {
        Some(Flag::PriceOutlier)
    } else if s == "wanted-ad"@ {
        Some(Flag::WantedAd)
    } else {
        None
    }
}

/// The flag of a stored tag.
pub fn flag_from_str(s: &str) -> (r: Option<Flag>)
    ensures
        r == flag_named(s@),
{
    if same(s, "possible-stuffing") {
        Some(Flag::PossibleStuffing)
    } else if same(s, "price-outlier") {
        Some(Flag::PriceOutlier)
    } else if same(s, "wanted-ad") {
        Some(Flag::WantedAd)
    } else {
        None
    }
}

/// Statuses, moderations and flags are read back from their stored names.
pub proof fn deal_names_round_trip(status: DealStatus, moderation: Moderation, flag: Flag)
    ensures
        deal_status_named(deal_status_name(status)) == Some(status),
        moderation_named(moderation_name(moderation)) == Some(moderation),
        flag_named(tag_of(flag)) == Some(flag),
{
    reveal_strlit("active");
    reveal_strlit("gone");
    reveal_strlit("none");
    reveal_strlit("dismissed");
    reveal_strlit("banned");
    reveal_strlit("possible-stuffing");
    reveal_strlit("price-outlier");
    reveal_strlit("wanted-ad");
    assert("active"@.len() == 6 && "gone"@.len() == 4);
    assert("none"@.len() == 4 && "dismissed"@.len() == 9 && "banned"@.len() == 6);
    assert("possible-stuffing"@.len() == 17 && "price-outlier"@.len() == 13 && "wanted-ad"@.len()
        == 9);
}

/// What an error says.
pub open spec fn error_text(e: DbErrorView) -> Seq<char> {
    match e {
        DbErrorView::NotFound => "not found"@,
        DbErrorView::Corrupt(m) => "invalid stored data: "@ + m,
    }
}

impl DbError {
    /// What the error says.
    pub fn message(&self) -> (r: String)
        ensures
            r@ == error_text(self.deep_view()),
    {
        match self {
            DbError::NotFound => "not found".to_owned(),
            DbError::Corrupt(m) => {
                let mut out = "invalid stored data: ".to_owned();
                out.append(m.as_str());
                out
            },
        }
    }

    /// The HTTP status that the error is answered with: what is not there is 404, all else
    /// the server's own fault.
    pub fn status(&self) -> (r: u16)
        ensures
            r == if self.deep_view() == DbErrorView::NotFound {
                404u16
            } else {
                500u16
            },
    {
        match self {
            DbError::NotFound => 404,
            DbError::Corrupt(_) => 500,
        }
    }
}

/// The digits of an id are those of its value, the last one for its last sixteenth, in
/// small letters.
pub proof fn ids_are_written_in_hex(n: nat, len: nat)
    ensures
        hex_digits(n, len).len() == len,
        len > 0 ==> hex_digits(n, len).last() == "0123456789abcdef"@[(n % 16) as int],
        len > 0 ==> hex_digits(n, len).drop_last() == hex_digits(n / 16, (len - 1) as nat),
    decreases len,
{
    reveal_strlit("0123456789abcdef");
    if len > 0 {
        ids_are_written_in_hex(n / 16, (len - 1) as nat);
        assert(hex_digits(n, len).drop_last() =~= hex_digits(n / 16, (len - 1) as nat));
        let d = n % 16;
        assert(d == 0 || d == 1 || d == 2 || d == 3 || d == 4 || d == 5 || d == 6 || d == 7 || d
            == 8 || d == 9 || d == 10 || d == 11 || d == 12 || d == 13 || d == 14 || d == 15);
    }
}

/// An id is its thirty-two digits with a dash behind the eighth, twelfth, sixteenth and
/// twentieth.
pub proof fn ids_are_grouped(id: u128)
    ensures
        uuid_written(id).len() == 36,
        uuid_written(id)[8] == '-',
        uuid_written(id)[13] == '-',
        uuid_written(id)[18] == '-',
        uuid_written(id)[23] == '-',
        uuid_written(id).subrange(0, 8) + uuid_written(id).subrange(9, 13) + uuid_written(
            id,
        ).subrange(14, 18) + uuid_written(id).subrange(19, 23) + uuid_written(id).subrange(24, 36)
            == hex_digits(id as nat, 32),
{
    ids_are_written_in_hex(id as nat, 32);
    let h = hex_digits(id as nat, 32);
    let u = uuid_written(id);
    assert(u.subrange(0, 8) =~= h.subrange(0, 8));
    assert(u.subrange(9, 13) =~= h.subrange(8, 12));
    assert(u.subrange(14, 18) =~= h.subrange(12, 16));
    assert(u.subrange(19, 23) =~= h.subrange(16, 20));
    assert(u.subrange(24, 36) =~= h.subrange(20, 32));
    assert(h.subrange(0, 8) + h.subrange(8, 12) + h.subrange(12, 16) + h.subrange(16, 20)
        + h.subrange(20, 32) =~= h);
}

/// What a corrupt column and an error say.
pub proof fn faults_are_told(what: Seq<char>, value: Seq<char>, why: Seq<char>)
    ensures
        error_text(bad(what, value)) == "invalid stored data: "@ + ("bad "@ + what + " "@ + quoted(
            value,
        )),
        error_text(bad_because(what, value, why)) == "invalid stored data: "@ + ("bad "@ + what
            + " "@ + quoted(value) + ": "@ + why),
        error_text(DbErrorView::NotFound) == "not found"@,
        uuid_read(value) matches Err(e) ==> id_read(value) == Err::<u128, DbErrorView>(
            bad_because("uuid"@, value, e),
        ),
        uuid_read(value) matches Ok(id) ==> id_read(value) == Ok::<u128, DbErrorView>(id),
        rfc3339_read(value) matches Err(e) ==> ts_read(value) == Err::<Timestamp, DbErrorView>(
            bad_because("timestamp"@, value, e),
        ),
        rfc3339_read(value) matches Ok(t) ==> ts_read(value) == Ok::<Timestamp, DbErrorView>(t),
{
}

/// The stored names, and that no other name is one.
pub proof fn stored_names(s: Seq<char>)
    ensures
        verdict_named(s) is Some <==> s == "genuine"@ || s == "stuffed-title"@ || s == "scam"@ || s
            == "irrelevant"@,
        verdict_name(LlmVerdict::Genuine) == "genuine"@,
        verdict_name(LlmVerdict::StuffedTitle) == "stuffed-title"@,
        verdict_name(LlmVerdict::Scam) == "scam"@,
        verdict_name(LlmVerdict::Irrelevant) == "irrelevant"@,
        deal_status_named(s) is Some <==> s == "active"@ || s == "gone"@,
        deal_status_name(DealStatus::Active) == "active"@,
        deal_status_name(DealStatus::Gone) == "gone"@,
        moderation_named(s) is Some <==> s == "none"@ || s == "dismissed"@ || s == "banned"@,
        moderation_name(Moderation::Unmoderated) == "none"@,
        moderation_name(Moderation::Dismissed) == "dismissed"@,
        moderation_name(Moderation::Banned) == "banned"@,
        flag_named(s) is Some <==> s == "possible-stuffing"@ || s == "price-outlier"@ || s
            == "wanted-ad"@,
        s == "price-outlier"@ ==> flag_named(s) == Some(Flag::PriceOutlier),
        s == "possible-stuffing"@ ==> flag_named(s) == Some(Flag::PossibleStuffing),
        s == "wanted-ad"@ ==> flag_named(s) == Some(Flag::WantedAd),
{
    reveal_strlit("possible-stuffing");
    reveal_strlit("price-outlier");
    reveal_strlit("wanted-ad");
    assert("possible-stuffing"@.len() == 17 && "price-outlier"@.len() == 13 && "wanted-ad"@.len()
        == 9);
}

} // verus!
