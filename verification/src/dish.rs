//! The dish model and the dish-type classifier.
//!
//! A dish's type (kebab, pizza, other) is decided by its resolved category
//! name alone: the lower-cased name is searched for the kebab and pizza
//! stems, kebab first.

use vstd::prelude::*;
use vstd::string::StrSliceExecFns;
use crate::amount::{Amount, AmountView};
use crate::nutrition::NutritionFacts;
use crate::quantity::Quantity;
use crate::text::{find_from, find_sub, to_chars};

verus! {

/// The dish classes with type-specific features.
#[derive(Clone, Copy, PartialEq, Eq, Structural, Debug)]
pub enum DishType {
    Kebab,
    Pizza,
    Other,
}

/// A dish-type-specific option (a wrap choice, a crust), distinct from
/// additions.
#[derive(Clone, PartialEq, Eq, Debug)]
pub struct DishFeature {
    pub name: String,
    pub price: Amount,
}

/// The mathematical image of a `DishFeature`.
pub struct DishFeatureView {
    pub name: Seq<char>,
    pub price: AmountView,
}

impl View for DishFeature {
    type V = DishFeatureView;

    open spec fn view(&self) -> DishFeatureView {
        DishFeatureView { name: self.name@, price: self.price@ }
    }
}

/// The views of a feature list.
pub open spec fn features_view(v: Seq<DishFeature>) -> Seq<DishFeatureView> {
    v.map_values(|f: DishFeature| f@)
}

/// Type-specific structured options; exactly one variant per dish, selected
/// by the dish type alone.
#[derive(Clone, PartialEq, Eq, Debug)]
pub enum DishFeatures {
    Kebab { pita_types: Vec<DishFeature> },
    Pizza { base_types: Vec<DishFeature>, crust_types: Vec<DishFeature> },
    Other,
}

/// The mathematical image of `DishFeatures`.
pub enum DishFeaturesView {
    Kebab { pita_types: Seq<DishFeatureView> },
    Pizza { base_types: Seq<DishFeatureView>, crust_types: Seq<DishFeatureView> },
    Other,
}

impl View for DishFeatures {
    type V = DishFeaturesView;

    open spec fn view(&self) -> DishFeaturesView {
        match self {
            DishFeatures::Kebab { pita_types } => DishFeaturesView::Kebab {
                pita_types: features_view(pita_types@),
            },
            DishFeatures::Pizza { base_types, crust_types } => DishFeaturesView::Pizza {
                base_types: features_view(base_types@),
                crust_types: features_view(crust_types@),
            },
            DishFeatures::Other => DishFeaturesView::Other,
        }
    }
}

/// One orderable size of a dish.
#[derive(Clone, PartialEq, Eq, Debug)]
pub struct DishVariant {
    pub name: String,
    pub quantity: Quantity,
    pub price: Amount,
}

/// The mathematical image of a `DishVariant`.
pub struct DishVariantView {
    pub name: Seq<char>,
    pub quantity: Quantity,
    pub price: AmountView,
}

impl View for DishVariant {
    type V = DishVariantView;

    open spec fn view(&self) -> DishVariantView {
        DishVariantView { name: self.name@, quantity: self.quantity, price: self.price@ }
    }
}

/// One priced size of an addition.
#[derive(Clone, PartialEq, Eq, Debug)]
pub struct AdditionVariant {
    pub quantity: Quantity,
    pub price: Amount,
}

/// The mathematical image of an `AdditionVariant`.
pub struct AdditionVariantView {
    pub quantity: Quantity,
    pub price: AmountView,
}

impl View for AdditionVariant {
    type V = AdditionVariantView;

    open spec fn view(&self) -> AdditionVariantView {
        AdditionVariantView { quantity: self.quantity, price: self.price@ }
    }
}

/// The views of an addition-variant list.
pub open spec fn avs_view(v: Seq<AdditionVariant>) -> Seq<AdditionVariantView> {
    v.map_values(|a: AdditionVariant| a@)
}

/// An optional extra orderable alongside a dish, in several priced sizes.
#[derive(Clone, PartialEq, Eq, Debug)]
pub struct Addition {
    pub id: String,
    pub name: String,
    pub variants: Vec<AdditionVariant>,
}

/// The mathematical image of an `Addition`.
pub struct AdditionView {
    pub id: Seq<char>,
    pub name: Seq<char>,
    pub variants: Seq<AdditionVariantView>,
}

impl View for Addition {
    type V = AdditionView;

    open spec fn view(&self) -> AdditionView {
        AdditionView { id: self.id@, name: self.name@, variants: avs_view(self.variants@) }
    }
}

/// The views of an addition list.
pub open spec fn adds_view(v: Seq<Addition>) -> Seq<AdditionView> {
    v.map_values(|a: Addition| a@)
}

/// A catalog dish.
#[derive(Clone, PartialEq, Eq, Debug)]
pub struct Dish {
    pub id: String,
    pub category: String,
    pub name: String,
    pub ingredients: Vec<String>,
    pub features: DishFeatures,
    pub nutrition_facts: Option<NutritionFacts>,
    pub variants: Vec<DishVariant>,
    pub additions: Vec<Addition>,
}

/// The mathematical image of a `Dish`.
pub struct DishView {
    pub id: Seq<char>,
    pub category: Seq<char>,
    pub name: Seq<char>,
    pub ingredients: Seq<Seq<char>>,
    pub features: DishFeaturesView,
    pub nutrition_facts: Option<NutritionFacts>,
    pub variants: Seq<DishVariantView>,
    pub additions: Seq<AdditionView>,
}

impl View for Dish {
    type V = DishView;

    open spec fn view(&self) -> DishView {
        DishView {
            id: self.id@,
            category: self.category@,
            name: self.name@,
            ingredients: crate::dom::strs_view(self.ingredients@),
            features: self.features@,
            nutrition_facts: self.nutrition_facts,
            variants: self.variants@.map_values(|v: DishVariant| v@),
            additions: adds_view(self.additions@),
        }
    }
}

/// What lower-casing a string returns: a pure function of the characters.
pub uninterp spec fn lower_of(s: Seq<char>) -> Seq<char>;

/// Relies on `str::to_lowercase`: the result depends on the characters
/// alone.
#[verifier::external_body]
fn lowercase(s: &str) -> (r: String)
    ensures
        r@ == lower_of(s@),
{
    s.to_lowercase()
}

/// `needle` occurs somewhere in `hay`.
pub open spec fn contains_sub(hay: Seq<char>, needle: Seq<char>) -> bool {
    find_from(hay, needle, 0) is Some
}

/// The kebab stem.
pub open spec fn stem_kebab() -> Seq<char> {
    seq!['к', 'е', 'б', 'а', 'б']
}

/// The shawarma stem, classified as kebab too.
pub open spec fn stem_shawarma() -> Seq<char> {
    seq!['ш', 'а', 'у', 'р', 'м', 'а']
}

/// The pizza stem.
pub open spec fn stem_pizza() -> Seq<char> {
    seq!['п', 'и', 'ц', 'ц', 'а']
}

/// The dish type a category name resolves to: kebab where the lower-cased
/// name holds a kebab or shawarma stem, else pizza where it holds the pizza
/// stem, else other.
pub open spec fn classify_spec(name: Seq<char>) -> DishType {
    let low = lower_of(name);
    if contains_sub(low, stem_kebab()) || contains_sub(low, stem_shawarma()) {
        DishType::Kebab
    } else if contains_sub(low, stem_pizza()) {
        DishType::Pizza
    } else {
        DishType::Other
    }
}

impl DishType {
    /// Classifies a resolved category name.
    pub fn classify(name: &str) -> (t: DishType)
        ensures
            t == classify_spec(name@),
    {
        let low = lowercase(name);
        let v = to_chars(low.as_str());
        let mut kebab: Vec<char> = Vec::new();
        kebab.push('к');
        kebab.push('е');
        kebab.push('б');
        kebab.push('а');
        kebab.push('б');
        proof {
            assert(kebab@ =~= stem_kebab());
        }
        let mut shawarma: Vec<char> = Vec::new();
        shawarma.push('ш');
        shawarma.push('а');
        shawarma.push('у');
        shawarma.push('р');
        shawarma.push('м');
        shawarma.push('а');
        proof {
            assert(shawarma@ =~= stem_shawarma());
        }
        let mut pizza: Vec<char> = Vec::new();
        pizza.push('п');
        pizza.push('и');
        pizza.push('ц');
        pizza.push('ц');
        pizza.push('а');
        proof {
            assert(pizza@ =~= stem_pizza());
        }
        let is_kebab = match find_sub(&v, &kebab, 0) {
            Some(_) => true,
            None => match find_sub(&v, &shawarma, 0) {
                Some(_) => true,
                None => false,
            },
        };
        if is_kebab {
            DishType::Kebab
        } else if match find_sub(&v, &pizza, 0) {
            Some(_) => true,
            None => false,
        } {
            DishType::Pizza
        } else {
            DishType::Other
        }
    }
}

} // verus!
