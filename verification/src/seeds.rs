//! Curated category seeds. Each family table folds in as a category with a `model` enum
//! spec, so that one system drives categorization, stuffing and filters.

use vstd::prelude::*;
use crate::category::{
    Category, CategoryOrigin, CategorySpec, CategorySpecView, CategoryStatus, CategoryView, SpecKind,
};
use crate::family::{ProductFamily, ProductFamilyView};
use crate::text::push_text;
use crate::time::Timestamp;

verus! {

/// A number spec.
pub open spec fn number_spec(key: Seq<char>, label: Seq<char>, unit: Seq<char>) -> CategorySpecView {
    CategorySpecView {
        key,
        label,
        kind: SpecKind::Number,
        unit: Some(unit),
        allowed_values: Seq::empty(),
        extraction_hint: None,
    }
}

/// A number spec.
pub fn spec_number(key: &str, label: &str, unit: &str) -> (r: CategorySpec)
    ensures
        r.deep_view() == number_spec(key@, label@, unit@),
{
    let allowed_values: Vec<String> = Vec::new();
    assert(allowed_values.deep_view() =~= Seq::empty());
    CategorySpec {
        key: key.to_owned(),
        label: label.to_owned(),
        kind: SpecKind::Number,
        unit: Some(unit.to_owned()),
        allowed_values,
        extraction_hint: None,
    }
}

/// A curated, active category.
pub open spec fn curated(
    slug: Seq<char>,
    label: Seq<char>,
    aliases: Seq<Seq<char>>,
    specs: Seq<CategorySpecView>,
    now: Timestamp,
) -> CategoryView {
    CategoryView {
        slug,
        label,
        aliases,
        origin: CategoryOrigin::Curated,
        status: CategoryStatus::Active,
        specs,
        created_at: now,
    }
}

/// A curated, active category.
pub fn category(
    slug: &str,
    label: &str,
    aliases: Vec<String>,
    specs: Vec<CategorySpec>,
    now: Timestamp,
) -> (r: Category)
    ensures
        r.deep_view() == curated(slug@, label@, aliases.deep_view(), specs.deep_view(), now),
{
    Category {
        slug: slug.to_owned(),
        label: label.to_owned(),
        aliases,
        origin: CategoryOrigin::Curated,
        status: CategoryStatus::Active,
        specs,
        created_at: now,
    }
}

/// The capacity spec of the storage categories.
pub open spec fn capacity_spec() -> CategorySpecView {
    number_spec("capacity"@, "Capacity"@, "GB"@)
}

/// The seed of hard drives.
pub open spec fn hdd_seed(now: Timestamp) -> CategoryView {
    curated(
        "hdd"@,
        "Hard drive"@,
        seq![
            "hdd"@,
            "disque dur"@,
            "hard drive"@,
            "ironwolf"@,
            "wd red"@,
            "barracuda"@,
            "exos"@,
            "nas"@,
        ],
        seq![capacity_spec(), number_spec("rpm"@, "Rotation speed"@, "rpm"@)],
        now,
    )
}

/// The seed of solid-state drives.
pub open spec fn ssd_seed(now: Timestamp) -> CategoryView {
    curated("ssd"@, "SSD"@, seq!["ssd"@, "nvme"@, "m.2"@], seq![capacity_spec()], now)
}

/// The seed of memory.
pub open spec fn ram_seed(now: Timestamp) -> CategoryView {
    curated(
        "ram"@,
        "RAM"@,
        seq!["ram"@, "ddr3"@, "ddr4"@, "ddr5"@, "dimm"@, "sodimm"@, "mémoire vive"@],
        seq![capacity_spec()],
        now,
    )
}

/// The category of a family: its aliases are the family's context words and its name, its
/// one spec the family's models.
pub open spec fn family_seed(family: ProductFamilyView, now: Timestamp) -> CategoryView {
    curated(
        family.name,
        family.name,
        family.context.push(family.name),
        seq![
            CategorySpecView {
                key: "model"@,
                label: "Model"@,
                kind: SpecKind::Enum,
                unit: None,
                allowed_values: family.models,
                extraction_hint: None,
            },
        ],
        now,
    )
}

/// The seeds: the built-in categories, then one per family.
pub open spec fn seeds_of(families: Seq<ProductFamilyView>, now: Timestamp) -> Seq<CategoryView> {
    seq![hdd_seed(now), ssd_seed(now), ram_seed(now)] + Seq::new(
        families.len(),
        |i: int| family_seed(families[i], now),
    )
}

fn one_spec(spec: CategorySpec) -> (r: Vec<CategorySpec>)
    ensures
        r.deep_view() == seq![spec.deep_view()],
{
    let mut out: Vec<CategorySpec> = Vec::new();
    out.push(spec);
    assert(out.deep_view() =~= seq![spec.deep_view()]);
    out
}

fn hdd(now: Timestamp) -> (r: Category)
    ensures
        r.deep_view() == hdd_seed(now),
{
    let mut a: Vec<String> = Vec::new();
    push_text(&mut a, "hdd");
    push_text(&mut a, "disque dur");
    push_text(&mut a, "hard drive");
    push_text(&mut a, "ironwolf");
    push_text(&mut a, "wd red");
    push_text(&mut a, "barracuda");
    push_text(&mut a, "exos");
    push_text(&mut a, "nas");
    assert(a.deep_view() =~= hdd_seed(now).aliases);
    let mut specs = one_spec(spec_number("capacity", "Capacity", "GB"));
    let ghost before = specs.deep_view();
    let rpm = spec_number("rpm", "Rotation speed", "rpm");
    specs.push(rpm);
    assert(specs.deep_view() =~= before.push(rpm.deep_view()));
    assert(specs.deep_view() =~= hdd_seed(now).specs);
    category("hdd", "Hard drive", a, specs, now)
}

fn ssd(now: Timestamp) -> (r: Category)
    ensures
        r.deep_view() == ssd_seed(now),
{
    let mut a: Vec<String> = Vec::new();
    push_text(&mut a, "ssd");
    push_text(&mut a, "nvme");
    push_text(&mut a, "m.2");
    assert(a.deep_view() =~= ssd_seed(now).aliases);
    category("ssd", "SSD", a, one_spec(spec_number("capacity", "Capacity", "GB")), now)
}

fn ram(now: Timestamp) -> (r: Category)
    ensures
        r.deep_view() == ram_seed(now),
{
    let mut a: Vec<String> = Vec::new();
    push_text(&mut a, "ram");
    push_text(&mut a, "ddr3");
    push_text(&mut a, "ddr4");
    push_text(&mut a, "ddr5");
    push_text(&mut a, "dimm");
    push_text(&mut a, "sodimm");
    push_text(&mut a, "mémoire vive");
    assert(a.deep_view() =~= ram_seed(now).aliases);
    category("ram", "RAM", a, one_spec(spec_number("capacity", "Capacity", "GB")), now)
}

fn family_category(family: &ProductFamily, now: Timestamp) -> (r: Category)
    ensures
        r.deep_view() == family_seed(family.deep_view(), now),
{
    let mut aliases = family.context.clone();
    assert(aliases.deep_view() =~= family.context.deep_view());
    push_text(&mut aliases, family.name.as_str());
    let allowed_values = family.models.clone();
    assert(allowed_values.deep_view() =~= family.models.deep_view());
    let spec = CategorySpec {
        key: "model".to_owned(),
        label: "Model".to_owned(),
        kind: SpecKind::Enum,
        unit: None,
        allowed_values,
        extraction_hint: None,
    };
    category(family.name.as_str(), family.name.as_str(), aliases, one_spec(spec), now)
}

/// The seeds: the built-in categories, then one per family.
pub fn builtin(families: &[ProductFamily], now: Timestamp) -> (r: Vec<Category>)
    ensures
        r.deep_view() == seeds_of(families.deep_view(), now),
{
    let ghost all = seeds_of(families.deep_view(), now);
    let mut out: Vec<Category> = Vec::new();
    out.push(hdd(now));
    out.push(ssd(now));
    out.push(ram(now));
    assert(out.deep_view() =~= all.take(3));
    let mut i: usize = 0;
    while i < families.len()
        invariant
            i <= families@.len(),
            all == seeds_of(families.deep_view(), now),
            out.deep_view() == all.take(i + 3),
        decreases families@.len() - i,
    {
        let ghost before = out.deep_view();
        let seed = family_category(&families[i], now);
        out.push(seed);
        i = i + 1;
        assert(out.deep_view() =~= before.push(seed.deep_view()));
        assert(out.deep_view() =~= all.take(i + 3));
    }
    assert(all.take(all.len() as int) =~= all);
    out
}

/// Every seed is curated and in use, and carries the given date.
pub proof fn seeds_are_curated(families: Seq<ProductFamilyView>, now: Timestamp)
    ensures
        forall|i: int|
            0 <= i < seeds_of(families, now).len() ==> {
                let seed = #[trigger] seeds_of(families, now)[i];
                &&& seed.origin == CategoryOrigin::Curated
                &&& seed.status == CategoryStatus::Active
                &&& seed.created_at == now
            },
{
}

/// The seeds: hard drives, solid-state drives and memory, each with its capacity, then one
/// category for each family, whose context words and name are its aliases and whose models
/// are the values of its one spec.
pub proof fn every_family_is_seeded(families: Seq<ProductFamilyView>, now: Timestamp, i: int)
    requires
        0 <= i < families.len(),
    ensures
        seeds_of(families, now).len() == 3 + families.len(),
        seeds_of(families, now)[0].slug == "hdd"@,
        seeds_of(families, now)[1].slug == "ssd"@,
        seeds_of(families, now)[2].slug == "ram"@,
        forall|k: int|
            0 <= k < 3 ==> (#[trigger] seeds_of(families, now)[k]).specs[0].key == "capacity"@
                && seeds_of(families, now)[k].specs[0].kind == SpecKind::Number && seeds_of(
                families,
                now,
            )[k].specs[0].unit == Some("GB"@),
        ({
            let seed = seeds_of(families, now)[3 + i];
            &&& seed.slug == families[i].name
            &&& seed.label == families[i].name
            &&& seed.aliases == families[i].context.push(families[i].name)
            &&& seed.specs.len() == 1
            &&& seed.specs[0].key == "model"@
            &&& seed.specs[0].label == "Model"@
            &&& seed.specs[0].kind == SpecKind::Enum
            &&& seed.specs[0].unit is None
            &&& seed.specs[0].allowed_values == families[i].models
            &&& seed.specs[0].extraction_hint is None
        }),
{
    let all = seeds_of(families, now);
    assert(all[0] == hdd_seed(now) && all[1] == ssd_seed(now) && all[2] == ram_seed(now));
    assert forall|k: int| 0 <= k < 3 implies (#[trigger] all[k]).specs[0].key == "capacity"@
        && all[k].specs[0].kind == SpecKind::Number && all[k].specs[0].unit == Some("GB"@) by {
        assert(k == 0 || k == 1 || k == 2);
    }
}

/// The words that the built-in seeds go by, and what they measure.
pub proof fn built_in_seeds(now: Timestamp)
    ensures
        hdd_seed(now).label == "Hard drive"@,
        hdd_seed(now).aliases == seq![
            "hdd"@,
            "disque dur"@,
            "hard drive"@,
            "ironwolf"@,
            "wd red"@,
            "barracuda"@,
            "exos"@,
            "nas"@,
        ],
        hdd_seed(now).specs.len() == 2,
        hdd_seed(now).specs[1].key == "rpm"@ && hdd_seed(now).specs[1].label
            == "Rotation speed"@ && hdd_seed(now).specs[1].unit == Some("rpm"@) && hdd_seed(
            now,
        ).specs[1].kind == SpecKind::Number,
        ssd_seed(now).label == "SSD"@,
        ssd_seed(now).aliases == seq!["ssd"@, "nvme"@, "m.2"@],
        ssd_seed(now).specs.len() == 1,
        ram_seed(now).label == "RAM"@,
        ram_seed(now).aliases == seq![
            "ram"@,
            "ddr3"@,
            "ddr4"@,
            "ddr5"@,
            "dimm"@,
            "sodimm"@,
            "mémoire vive"@,
        ],
        ram_seed(now).specs.len() == 1,
{
}

} // verus!
