//! Capacity and condition, read from listing titles. Models are read by the family
//! tables: see `family`.

use vstd::prelude::*;
use crate::decimal::{clamped, natural_reads_as_itself, pow10};
use crate::pattern::{captures, group, group_of, regex_captures};
use crate::reading::{natural_reading, reading_of, units_of, Reading, ReadingView};
use crate::text::{
    all_digits, contains, is_digit, lowercased, nat_text, occurs, replace, same, with_replaced,
};

verus! {

/// What a title says of the product.
#[derive(Debug, PartialEq)]
pub struct ExtractedAttributes {
    /// Decimal gigabytes (1 TB = 1000 GB, 1 To = 1000 Go).
    pub capacity_gb: Option<i64>,
    /// "new" | "used" | "refurbished".
    pub condition: Option<String>,
}

/// What `ExtractedAttributes` holds.
pub struct AttributesView {
    pub capacity_gb: Option<i64>,
    pub condition: Option<Seq<char>>,
}

impl DeepView for ExtractedAttributes {
    type V = AttributesView;

    open spec fn deep_view(&self) -> AttributesView {
        AttributesView {
            capacity_gb: self.capacity_gb,
            condition: self.condition.deep_view(),
        }
    }
}

/// 4TB / 4 To / 16GB / 16 Go / 1.5TB / 1,5 To. The unit is required and word-bounded on
/// the right; the number is not bounded on the left, so that kit notation such as
/// "2x8 Go" still matches.
pub const CAPACITY_PATTERN: &'static str = "(?i)(\\d+(?:[.,]\\d+)?)\\s*(tb|to|gb|go)\\b";

/// What `s` reads as, with a point or a comma.
pub open spec fn number_of(s: Seq<char>) -> Option<ReadingView> {
    reading_of(with_replaced(s, ',', "."@))
}

/// What `s` reads as, with a point or a comma.
pub fn read_number(s: &str) -> (r: Option<Reading>)
    ensures
        r.deep_view() == number_of(s@),
{
    let dotted = replace(s, ',', ".");
    Reading::parse(dotted.as_str())
}

/// Gigabytes, rounded, that a number in a (lowercase) unit stands for.
pub open spec fn gigabytes(number: Seq<char>, unit: Seq<char>) -> Option<i64> {
    match number_of(number) {
        Some(n) => Some(units_of(n, if unit == "tb"@ || unit == "to"@ { 3 } else { 0 })),
        None => None,
    }
}

/// Gigabytes, rounded, that a number in a (lowercase) unit stands for.
pub fn capacity_from(number: &str, unit: &str) -> (r: Option<i64>)
    ensures
        r == gigabytes(number@, unit@),
{
    let shift: u8 = if same(unit, "tb") || same(unit, "to") {
        3
    } else {
        0
    };
    match read_number(number) {
        Some(n) => Some(n.round_shifted(shift)),
        None => None,
    }
}

/// The condition that a lowercase title names: refurbished before used, used before new.
pub open spec fn condition_in(lower: Seq<char>) -> Option<Seq<char>> {
    if occurs(lower, "reconditionné"@) || occurs(lower, "reconditionne"@) || occurs(lower, "refurbished"@)
        || occurs(lower, "refurb"@) {
        Some("refurbished"@)
    } else if occurs(lower, "occasion"@) || occurs(lower, "used"@) {
        Some("used"@)
    } else if occurs(lower, "neuf"@) || occurs(lower, "neuve"@) || occurs(lower, "brand new"@) || occurs(
        lower,
        " new"@,
    ) {
        Some("new"@)
    } else {
        None
    }
}

/// The condition that a lowercase title names: refurbished before used, used before new.
pub fn condition_from(lower: &str) -> (r: Option<String>)
    ensures
        r.deep_view() == condition_in(lower@),
{
    if contains(lower, "reconditionné") || contains(lower, "reconditionne") || contains(
        lower,
        "refurbished",
    ) || contains(lower, "refurb") {
        Some("refurbished".to_owned())
    } else if contains(lower, "occasion") || contains(lower, "used") {
        Some("used".to_owned())
    } else if contains(lower, "neuf") || contains(lower, "neuve") || contains(lower, "brand new")
        || contains(lower, " new") {
        Some("new".to_owned())
    } else {
        None
    }
}

/// The capacity of a title.
pub open spec fn capacity_of(title: Seq<char>) -> Option<i64> {
    let caps = regex_captures(CAPACITY_PATTERN@, title);
    match (group_of(caps, 1), group_of(caps, 2)) {
        (Some(number), Some(unit)) => gigabytes(number, lowercased(unit)),
        _ => None,
    }
}

/// The attributes of a title.
pub open spec fn attributes_of(title: Seq<char>) -> AttributesView {
    AttributesView {
        capacity_gb: capacity_of(title),
        condition: condition_in(lowercased(title)),
    }
}

/// Reads capacity and condition from a (cleaned) listing title.
pub fn extract(title: &str) -> (r: ExtractedAttributes)
    ensures
        r.deep_view() == attributes_of(title@),
{
    let caps = captures(CAPACITY_PATTERN, title);
    let capacity_gb = match (group(&caps, 1), group(&caps, 2)) {
        (Some(number), Some(unit)) => {
            let lower = unit.to_lowercase();
            capacity_from(number.as_str(), lower.as_str())
        },
        _ => None,
    };
    let lower = title.to_lowercase();
    ExtractedAttributes { capacity_gb, condition: condition_from(lower.as_str()) }
}

proof fn digits_hold_no_comma(s: Seq<char>)
    requires
        all_digits(s),
    ensures
        with_replaced(s, ',', "."@) == s,
    decreases s.len(),
{
    if s.len() > 0 {
        assert(is_digit(s[s.len() - 1]));
        digits_hold_no_comma(s.drop_last());
        assert(s.drop_last() + seq![s.last()] =~= s);
    }
}

/// A whole number of gigabytes is read as that many, and a whole number of terabytes as a
/// thousand times that many, up to the largest capacity that can be held.
pub proof fn whole_capacities_are_read(n: nat, unit: Seq<char>)
    ensures
        unit == "tb"@ || unit == "to"@ ==> gigabytes(nat_text(n), unit) == Some(
            clamped(1000 * n as int),
        ),
        unit == "gb"@ || unit == "go"@ ==> gigabytes(nat_text(n), unit) == Some(clamped(n as int)),
{
    reveal_strlit("tb");
    reveal_strlit("to");
    reveal_strlit("gb");
    reveal_strlit("go");
    natural_reads_as_itself(n);
    digits_hold_no_comma(nat_text(n));
    natural_reading(n, 0);
    natural_reading(n, 3);
    assert(pow10(3) == 1000 && pow10(0) == 1) by {
        reveal_with_fuel(pow10, 4);
    }
    assert(n * pow10(3) == 1000 * n) by (nonlinear_arith)
        requires
            pow10(3) == 1000,
    ;
    assert(n * pow10(0) == n) by (nonlinear_arith)
        requires
            pow10(0) == 1,
    ;
    assert("gb"@[0] != "tb"@[0] && "gb"@[0] != "to"@[0]);
    assert("go"@[0] != "tb"@[0] && "go"@[0] != "to"@[0]);
}

/// A title that says so is of a refurbished thing, whatever else it says.
pub proof fn refurbished_words(lower: Seq<char>)
    ensures
        occurs(lower, "reconditionné"@) ==> condition_in(lower) == Some("refurbished"@),
        occurs(lower, "reconditionne"@) ==> condition_in(lower) == Some("refurbished"@),
        occurs(lower, "refurbished"@) ==> condition_in(lower) == Some("refurbished"@),
        occurs(lower, "refurb"@) ==> condition_in(lower) == Some("refurbished"@),
{
}

/// A title that says so is of a used thing, unless it says refurbished.
pub proof fn used_words(lower: Seq<char>)
    requires
        !occurs(lower, "reconditionné"@),
        !occurs(lower, "reconditionne"@),
        !occurs(lower, "refurbished"@),
        !occurs(lower, "refurb"@),
    ensures
        occurs(lower, "occasion"@) ==> condition_in(lower) == Some("used"@),
        occurs(lower, "used"@) ==> condition_in(lower) == Some("used"@),
{
}

/// A title that says so is of a new thing, unless it says refurbished or used.
pub proof fn new_words(lower: Seq<char>)
    requires
        !occurs(lower, "reconditionné"@),
        !occurs(lower, "reconditionne"@),
        !occurs(lower, "refurbished"@),
        !occurs(lower, "refurb"@),
        !occurs(lower, "occasion"@),
        !occurs(lower, "used"@),
    ensures
        occurs(lower, "neuf"@) ==> condition_in(lower) == Some("new"@),
        occurs(lower, "neuve"@) ==> condition_in(lower) == Some("new"@),
        occurs(lower, "brand new"@) ==> condition_in(lower) == Some("new"@),
        occurs(lower, " new"@) ==> condition_in(lower) == Some("new"@),
{
}

/// A title that holds none of the words has no condition, and the condition of one that
/// does is one of three.
pub proof fn no_word_no_condition(lower: Seq<char>)
    ensures
        !occurs(lower, "reconditionné"@) && !occurs(lower, "reconditionne"@) && !occurs(
            lower,
            "refurbished"@,
        ) && !occurs(lower, "refurb"@) && !occurs(lower, "occasion"@) && !occurs(lower, "used"@)
            && !occurs(lower, "neuf"@) && !occurs(lower, "neuve"@) && !occurs(lower, "brand new"@)
            && !occurs(lower, " new"@) <==> condition_in(lower) is None,
        condition_in(lower) matches Some(c) ==> c == "refurbished"@ || c == "used"@ || c == "new"@,
{
}

/// The attributes of a title: its condition is read without regard to case, and its
/// capacity is the first number with a unit behind it, in that unit.
pub proof fn attributes_come_from_the_title(title: Seq<char>)
    ensures
        attributes_of(title).condition == condition_in(lowercased(title)),
        regex_captures("(?i)(\\d+(?:[.,]\\d+)?)\\s*(tb|to|gb|go)\\b"@, title) is None ==> attributes_of(title).capacity_gb
            is None,
        ({
            let groups = regex_captures("(?i)(\\d+(?:[.,]\\d+)?)\\s*(tb|to|gb|go)\\b"@, title);
            groups is Some && groups->0.len() > 2 && groups->0[1] is Some && groups->0[2] is Some
                ==> attributes_of(title).capacity_gb == gigabytes(
                groups->0[1]->0,
                lowercased(groups->0[2]->0),
            )
        }),
{
}

/// A number reads the same with a comma as with a point.
pub proof fn commas_are_points(whole: Seq<char>, frac: Seq<char>, unit: Seq<char>)
    requires
        all_digits(whole),
        all_digits(frac),
    ensures
        gigabytes(whole + seq![','] + frac, unit) == gigabytes(whole + seq!['.'] + frac, unit),
{
    reveal_strlit(".");
    let a = whole + seq![','] + frac;
    let b = whole + seq!['.'] + frac;
    replaced_comma(whole, frac);
    replaced_point(whole, frac);
    assert(with_replaced(a, ',', "."@) == b);
    assert(with_replaced(b, ',', "."@) == b);
}

proof fn replaced_comma(whole: Seq<char>, frac: Seq<char>)
    requires
        all_digits(whole),
        all_digits(frac),
    ensures
        with_replaced(whole + seq![','] + frac, ',', "."@) == whole + seq!['.'] + frac,
    decreases frac.len(),
{
    reveal_strlit(".");
    let s = whole + seq![','] + frac;
    if frac.len() == 0 {
        assert(s.drop_last() =~= whole);
        digits_hold_no_comma(whole);
        assert(whole + "."@ =~= whole + seq!['.'] + frac);
    } else {
        let rest = frac.drop_last();
        replaced_comma(whole, rest);
        assert(s.drop_last() =~= whole + seq![','] + rest);
        assert(is_digit(frac[frac.len() - 1]));
        assert(s.last() == frac.last());
        assert(whole + seq!['.'] + rest + seq![frac.last()] =~= whole + seq!['.'] + frac);
    }
}

proof fn replaced_point(whole: Seq<char>, frac: Seq<char>)
    requires
        all_digits(whole),
        all_digits(frac),
    ensures
        with_replaced(whole + seq!['.'] + frac, ',', "."@) == whole + seq!['.'] + frac,
    decreases frac.len(),
{
    let s = whole + seq!['.'] + frac;
    if frac.len() == 0 {
        assert(s.drop_last() =~= whole);
        digits_hold_no_comma(whole);
        assert(whole + seq!['.'] =~= s);
    } else {
        let rest = frac.drop_last();
        replaced_point(whole, rest);
        assert(s.drop_last() =~= whole + seq!['.'] + rest);
        assert(is_digit(frac[frac.len() - 1]));
        assert(s.last() == frac.last());
        assert(whole + seq!['.'] + rest + seq![frac.last()] =~= s);
    }
}

} // verus!
