//! Product family tables and the stuffing score.
//!
//! A family lists sibling models (e.g. all RTX xx80 GPUs). A title that enumerates many
//! siblings is likely stuffed for search: the score is a signal attached to the deal,
//! never a hard filter.

use vstd::prelude::*;
use crate::category::{count_hits, count_true, some_hit};
use crate::pattern::{bounded_in, hits_of, word_hits};

verus! {

/// One product family from the configuration.
#[derive(Debug, PartialEq)]
pub struct ProductFamily {
    /// Stable id used by watches and price history, e.g. "nvidia-rtx".
    pub name: String,
    /// Sibling model tokens, matched word-bounded in any case, e.g. ["3060", "3080"].
    pub models: Vec<String>,
    /// Where there are any, a model counts only in a title that also holds one of these
    /// words: "Dell Optiplex 3080" is no graphics card.
    pub context: Vec<String>,
}

/// What `ProductFamily` holds.
#[verifier::ext_equal]
pub struct ProductFamilyView {
    pub name: Seq<char>,
    pub models: Seq<Seq<char>>,
    pub context: Seq<Seq<char>>,
}

impl DeepView for ProductFamily {
    type V = ProductFamilyView;

    open spec fn deep_view(&self) -> ProductFamilyView {
        ProductFamilyView {
            name: self.name@,
            models: self.models.deep_view(),
            context: self.context.deep_view(),
        }
    }
}

impl Clone for ProductFamily {
    fn clone(&self) -> (r: Self)
        ensures
            r.deep_view() == self.deep_view(),
    {
        let r = ProductFamily {
            name: self.name.clone(),
            models: self.models.clone(),
            context: self.context.clone(),
        };
        assert(r.models.deep_view() =~= self.models.deep_view());
        assert(r.context.deep_view() =~= self.context.deep_view());
        r
    }
}

/// The fraction of a family's other models that a title enumerates.
#[derive(Debug, Clone, Copy, PartialEq, Eq, Structural)]
pub struct StuffingScore {
    /// Models found beyond the first.
    pub extra: u64,
    /// Models of the family beyond the first.
    pub siblings: u64,
}

impl DeepView for StuffingScore {
    type V = StuffingScore;

    open spec fn deep_view(&self) -> StuffingScore {
        *self
    }
}

impl StuffingScore {
    /// The score of a title that names at most one model.
    pub fn zero() -> (r: StuffingScore)
        ensures
            r == zero_score(),
    {
        StuffingScore { extra: 0, siblings: 1 }
    }
}

/// The score of a title that names at most one model.
pub open spec fn zero_score() -> StuffingScore {
    StuffingScore { extra: 0, siblings: 1 }
}

/// Zero for at most one model found or known, else the fraction of the other models that
/// were found.
pub open spec fn stuffing(found: nat, known: nat) -> StuffingScore {
    if found <= 1 || known <= 1 {
        zero_score()
    } else {
        StuffingScore { extra: (found - 1) as u64, siblings: (known - 1) as u64 }
    }
}

/// Result of matching a title against the family tables.
#[derive(Debug, PartialEq)]
pub struct FamilyMatch {
    /// Family with the most model hits (None when no model matched).
    pub family: Option<String>,
    /// Every model of that family present in the title.
    pub models: Vec<String>,
    /// 0 = at most one model; → 1 as the title enumerates the family.
    pub stuffing_score: StuffingScore,
}

/// What `FamilyMatch` holds.
#[verifier::ext_equal]
pub struct FamilyMatchView {
    pub family: Option<Seq<char>>,
    pub models: Seq<Seq<char>>,
    pub stuffing_score: StuffingScore,
}

impl DeepView for FamilyMatch {
    type V = FamilyMatchView;

    open spec fn deep_view(&self) -> FamilyMatchView {
        FamilyMatchView {
            family: self.family.deep_view(),
            models: self.models.deep_view(),
            stuffing_score: self.stuffing_score,
        }
    }
}

/// No family, no model.
pub open spec fn no_match() -> FamilyMatchView {
    FamilyMatchView { family: None, models: Seq::empty(), stuffing_score: zero_score() }
}

impl Default for FamilyMatch {
    fn default() -> (r: Self)
        ensures
            r.deep_view() == no_match(),
    {
        let models: Vec<String> = Vec::new();
        assert(models.deep_view() =~= Seq::empty());
        FamilyMatch { family: None, models, stuffing_score: StuffingScore::zero() }
    }
}

/// Those of `models` that were hit, in order.
pub open spec fn picked(models: Seq<Seq<char>>, hits: Seq<bool>) -> Seq<Seq<char>>
    decreases models.len(),
{
    if models.len() == 0 {
        Seq::empty()
    } else {
        let before = picked(models.drop_last(), hits.drop_last());
        if hits.last() {
            before.push(models.last())
        } else {
            before
        }
    }
}

/// Those of `models` that were hit, in order.
pub fn pick(models: &Vec<String>, hits: &Vec<bool>) -> (r: Vec<String>)
    requires
        hits@.len() == models@.len(),
    ensures
        r.deep_view() == picked(models.deep_view(), hits@),
{
    let ghost all = models.deep_view();
    let mut out: Vec<String> = Vec::new();
    let mut i: usize = 0;
    assert(out.deep_view() =~= Seq::empty());
    while i < models.len()
        invariant
            i <= models@.len() == hits@.len(),
            all == models.deep_view(),
            out.deep_view() == picked(all.take(i as int), hits@.take(i as int)),
        decreases models@.len() - i,
    {
        let ghost before = out.deep_view();
        assert(all.take(i + 1).drop_last() =~= all.take(i as int));
        assert(hits@.take(i + 1).drop_last() =~= hits@.take(i as int));
        if hits[i] {
            out.push(models[i].clone());
            assert(out.deep_view() =~= before.push(all[i as int]));
        }
        i = i + 1;
    }
    assert(all.take(all.len() as int) =~= all);
    assert(hits@.take(hits@.len() as int) =~= hits@);
    out
}

/// The family with the most models found, the first of those that share the number.
/// `found` holds, for each family, which of its models were found.
pub open spec fn best_match(families: Seq<ProductFamilyView>, found: Seq<Seq<bool>>) -> FamilyMatchView
    decreases families.len(),
{
    if families.len() == 0 {
        no_match()
    } else {
        let best = best_match(families.drop_last(), found.drop_last());
        let family = families.last();
        let models = picked(family.models, found.last());
        if models.len() > best.models.len() {
            FamilyMatchView {
                family: Some(family.name),
                models,
                stuffing_score: stuffing(models.len(), family.models.len()),
            }
        } else {
            best
        }
    }
}

/// Whether each model of the family counts in a title: found as a word, beside a context
/// word where the family has any.
pub open spec fn family_hits(title: Seq<char>, family: ProductFamilyView) -> Seq<bool> {
    if family.context.len() == 0 || count_true(hits_of(title, family.context)) > 0 {
        hits_of(title, family.models)
    } else {
        Seq::new(family.models.len(), |i: int| false)
    }
}

/// What each family finds in a title.
pub open spec fn all_hits(title: Seq<char>, families: Seq<ProductFamilyView>) -> Seq<Seq<bool>> {
    Seq::new(families.len(), |i: int| family_hits(title, families[i]))
}

/// The family with the most models found, the first of those that share the number.
pub fn best_family(families: &[ProductFamily], found: &Vec<Vec<bool>>) -> (r: FamilyMatch)
    requires
        found@.len() == families@.len(),
        forall|i: int|
            0 <= i < families@.len() ==> (#[trigger] found@[i])@.len() == families@[i].models@.len(),
    ensures
        r.deep_view() == best_match(families.deep_view(), found.deep_view()),
{
    let ghost all = families.deep_view();
    let ghost hits = found.deep_view();
    let mut best = FamilyMatch::default();
    let mut i: usize = 0;
    while i < families.len()
        invariant
            i <= families@.len() == found@.len(),
            all == families.deep_view(),
            hits == found.deep_view(),
            forall|j: int|
                0 <= j < families@.len() ==> (#[trigger] found@[j])@.len()
                    == families@[j].models@.len(),
            best.deep_view() == best_match(all.take(i as int), hits.take(i as int)),
        decreases families@.len() - i,
    {
        assert(all.take(i + 1).drop_last() =~= all.take(i as int));
        assert(hits.take(i + 1).drop_last() =~= hits.take(i as int));
        assert(all[i as int] == families@[i as int].deep_view());
        assert(hits[i as int] =~= found@[i as int]@);
        let models = pick(&families[i].models, &found[i]);
        proof {
            picked_fits(all[i as int].models, hits[i as int]);
        }
        if models.len() > best.models.len() {
            let known: usize = families[i].models.len();
            let stuffing_score = if models.len() <= 1 || known <= 1 {
                StuffingScore::zero()
            } else {
                StuffingScore { extra: (models.len() - 1) as u64, siblings: (known - 1) as u64 }
            };
            best = FamilyMatch { family: Some(families[i].name.clone()), models, stuffing_score };
        }
        i = i + 1;
    }
    assert(all.take(all.len() as int) =~= all);
    assert(hits.take(hits.len() as int) =~= hits);
    best
}

/// No more models are picked than there are.
pub proof fn picked_fits(models: Seq<Seq<char>>, hits: Seq<bool>)
    requires
        hits.len() == models.len(),
    ensures
        picked(models, hits).len() == count_true(hits),
        picked(models, hits).len() <= models.len(),
    decreases models.len(),
{
    if models.len() > 0 {
        picked_fits(models.drop_last(), hits.drop_last());
    }
}

/// What the family tables find in a title.
pub open spec fn families_in(title: Seq<char>, families: Seq<ProductFamilyView>) -> FamilyMatchView {
    best_match(families, all_hits(title, families))
}

/// Whether each model of the family counts in a title.
fn count_models(title: &str, family: &ProductFamily) -> (r: Vec<bool>)
    ensures
        r@ == family_hits(title@, family.deep_view()),
{
    let context = word_hits(title, &family.context);
    if family.context.len() == 0 || count_hits(&context) > 0 {
        return word_hits(title, &family.models);
    }
    let mut out: Vec<bool> = Vec::new();
    let mut i: usize = 0;
    while i < family.models.len()
        invariant
            i <= family.models@.len(),
            out@ == Seq::new(i as nat, |j: int| false),
        decreases family.models@.len() - i,
    {
        out.push(false);
        i = i + 1;
        assert(out@ =~= Seq::new(i as nat, |j: int| false));
    }
    assert(out@ =~= family_hits(title@, family.deep_view()));
    out
}

/// Matches a title against every family table: the family with the most models found,
/// those models, and the stuffing score.
pub fn match_families(title: &str, families: &[ProductFamily]) -> (r: FamilyMatch)
    ensures
        r.deep_view() == families_in(title@, families.deep_view()),
{
    let ghost all = all_hits(title@, families.deep_view());
    let mut found: Vec<Vec<bool>> = Vec::new();
    let mut i: usize = 0;
    while i < families.len()
        invariant
            i <= families@.len(),
            found@.len() == i,
            all == all_hits(title@, families.deep_view()),
            forall|j: int| 0 <= j < i ==> (#[trigger] found@[j])@ == all[j],
        decreases families@.len() - i,
    {
        let hits = count_models(title, &families[i]);
        found.push(hits);
        assert(hits@ == all[i as int]);
        i = i + 1;
    }
    assert(found.deep_view() =~= all) by {
        assert forall|j: int| 0 <= j < all.len() implies found.deep_view()[j] =~= all[j] by {
            assert(found@[j]@ == all[j]);
        }
    }
    best_family(families, &found)
}

/// The stuffing score is a fraction of one, and zero where at most one model was found.
pub proof fn score_is_a_fraction(families: Seq<ProductFamilyView>, found: Seq<Seq<bool>>)
    requires
        found.len() == families.len(),
        forall|i: int|
            0 <= i < families.len() ==> (#[trigger] found[i]).len() == families[i].models.len()
                && families[i].models.len() <= u64::MAX,
    ensures
        ({
            let m = best_match(families, found);
            &&& m.stuffing_score.siblings > 0
            &&& m.stuffing_score.extra <= m.stuffing_score.siblings
            &&& m.models.len() <= 1 ==> m.stuffing_score.extra == 0
            &&& m.family is None <==> m.models.len() == 0
        }),
    decreases families.len(),
{
    if families.len() > 0 {
        let rest = families.drop_last();
        let seen = found.drop_last();
        assert forall|i: int| 0 <= i < rest.len() implies (#[trigger] seen[i]).len()
            == rest[i].models.len() && rest[i].models.len() <= u64::MAX by {
            assert(seen[i] == found[i]);
        }
        score_is_a_fraction(rest, seen);
        let n = families.len() - 1;
        assert(found[n].len() == families[n].models.len());
        picked_fits(families.last().models, found.last());
    }
}

/// No family finds more models than the one returned.
pub proof fn best_has_most_hits(families: Seq<ProductFamilyView>, found: Seq<Seq<bool>>, i: int)
    requires
        found.len() == families.len(),
        0 <= i < families.len(),
    ensures
        picked(families[i].models, found[i]).len() <= best_match(families, found).models.len(),
    decreases families.len(),
{
    if i < families.len() - 1 {
        best_has_most_hits(families.drop_last(), found.drop_last(), i);
    }
}

/// A title without any of a family's context words names none of its models.
pub proof fn context_is_required(title: Seq<char>, family: ProductFamilyView)
    requires
        family.context.len() > 0,
        count_true(hits_of(title, family.context)) == 0,
    ensures
        picked(family.models, family_hits(title, family)) == Seq::<Seq<char>>::empty(),
{
    no_hits_pick_nothing(family.models);
}

proof fn no_hits_pick_nothing(models: Seq<Seq<char>>)
    ensures
        picked(models, Seq::new(models.len(), |i: int| false)) == Seq::<Seq<char>>::empty(),
    decreases models.len(),
{
    if models.len() > 0 {
        no_hits_pick_nothing(models.drop_last());
        assert(Seq::new(models.len(), |i: int| false).drop_last() =~= Seq::new(
            models.drop_last().len(),
            |i: int| false,
        ));
    }
}

/// Models are picked one by one: each stands among the picked exactly where it was hit,
/// in the order of the table.
pub proof fn each_hit_is_picked(
    a: Seq<Seq<char>>,
    ha: Seq<bool>,
    b: Seq<Seq<char>>,
    hb: Seq<bool>,
)
    requires
        ha.len() == a.len(),
        hb.len() == b.len(),
    ensures
        picked(a + b, ha + hb) == picked(a, ha) + picked(b, hb),
        a.len() == 1 ==> picked(a, ha) == if ha[0] {
            a
        } else {
            Seq::empty()
        },
        a.len() == 0 ==> picked(a, ha).len() == 0,
    decreases b.len(),
{
    if b.len() == 0 {
        assert(a + b =~= a);
        assert(ha + hb =~= ha);
    } else {
        each_hit_is_picked(a, ha, b.drop_last(), hb.drop_last());
        assert((a + b).drop_last() =~= a + b.drop_last());
        assert((ha + hb).drop_last() =~= ha + hb.drop_last());
    }
    assert(picked(a + b, ha + hb) =~= picked(a, ha) + picked(b, hb));
    if a.len() == 1 {
        assert(picked(a.drop_last(), ha.drop_last()) =~= Seq::empty());
        assert(a.drop_last().push(a.last()) =~= a);
        assert(picked(a, ha) =~= if ha[0] {
            a
        } else {
            Seq::empty()
        });
    }
}

/// The family returned is the first of those with the most models found, with those models
/// and their score; none is returned exactly where no family found a model.
pub proof fn the_first_of_the_best(families: Seq<ProductFamilyView>, found: Seq<Seq<bool>>)
    requires
        found.len() == families.len(),
    ensures
        match best_match(families, found).family {
            Some(name) => exists|k: int|
                0 <= k < families.len() && (#[trigger] families[k]).name == name && best_match(
                    families,
                    found,
                ).models == picked(families[k].models, found[k]) && best_match(
                    families,
                    found,
                ).stuffing_score == stuffing(
                    best_match(families, found).models.len(),
                    families[k].models.len(),
                ) && best_match(families, found).models.len() > 0 && forall|j: int|
                    0 <= j < k ==> picked((#[trigger] families[j]).models, found[j]).len()
                        < best_match(families, found).models.len(),
            None => best_match(families, found).models.len() == 0 && forall|j: int|
                0 <= j < families.len() ==> picked(
                    (#[trigger] families[j]).models,
                    found[j],
                ).len() == 0,
        },
    decreases families.len(),
{
    let best = best_match(families, found);
    if families.len() > 0 {
        let rest = families.drop_last();
        let seen = found.drop_last();
        the_first_of_the_best(rest, seen);
        let before = best_match(rest, seen);
        let n = families.len() - 1;
        assert forall|j: int| 0 <= j < n implies picked(
            (#[trigger] families[j]).models,
            found[j],
        ).len() <= before.models.len() by {
            best_has_most_hits(rest, seen, j);
            assert(rest[j] == families[j] && seen[j] == found[j]);
        }
        if picked(families[n].models, found[n]).len() > before.models.len() {
            assert(families[n].name == best.family->0);
        } else if let Some(name) = before.family {
            let k = choose|k: int|
                0 <= k < rest.len() && (#[trigger] rest[k]).name == name && before.models == picked(
                    rest[k].models,
                    seen[k],
                ) && before.stuffing_score == stuffing(before.models.len(), rest[k].models.len())
                    && before.models.len() > 0 && forall|j: int|
                    0 <= j < k ==> picked((#[trigger] rest[j]).models, seen[j]).len()
                        < before.models.len();
            assert(families[k] == rest[k]);
            assert forall|j: int| 0 <= j < k implies picked(
                (#[trigger] families[j]).models,
                found[j],
            ).len() < best.models.len() by {
                assert(rest[j] == families[j] && seen[j] == found[j]);
            }
        }
    }
}

/// The score counts the models found beyond the first against the family's beyond the
/// first; it is zero where at most one was found or is known.
pub proof fn scores_count_the_others(found: nat, known: nat)
    requires
        found <= u64::MAX,
        known <= u64::MAX,
    ensures
        found <= 1 || known <= 1 ==> stuffing(found, known).extra == 0 && stuffing(
            found,
            known,
        ).siblings == 1,
        found > 1 && known > 1 ==> stuffing(found, known).extra == found - 1 && stuffing(
            found,
            known,
        ).siblings == known - 1,
{
}

/// A model counts exactly where it stands in the title as a word, and with it one of the
/// family's context words where the family has any.
pub proof fn models_need_their_context(title: Seq<char>, family: ProductFamilyView, i: int)
    requires
        0 <= i < family.models.len(),
    ensures
        family_hits(title, family).len() == family.models.len(),
        family_hits(title, family)[i] == (bounded_in(title, family.models[i]) && (
        family.context.len() == 0 || exists|j: int|
            0 <= j < family.context.len() && bounded_in(title, #[trigger] family.context[j]))),
{
    let hits = hits_of(title, family.context);
    some_hit(hits);
    if hits.contains(true) {
        let j = choose|j: int| 0 <= j < hits.len() && hits[j] == true;
        assert(bounded_in(title, family.context[j]));
    }
    if exists|j: int|
        0 <= j < family.context.len() && bounded_in(title, #[trigger] family.context[j]) {
        let j = choose|j: int|
            0 <= j < family.context.len() && bounded_in(title, #[trigger] family.context[j]);
        assert(hits[j] == true);
    }
}

/// Each family looks at the title for itself.
pub proof fn families_look_for_themselves(title: Seq<char>, families: Seq<ProductFamilyView>)
    ensures
        families_in(title, families) == best_match(
            families,
            families.map_values(|f: ProductFamilyView| family_hits(title, f)),
        ),
{
    assert(all_hits(title, families) =~= families.map_values(
        |f: ProductFamilyView| family_hits(title, f),
    ));
}

} // verus!
