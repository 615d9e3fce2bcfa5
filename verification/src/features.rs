//! Dish-type-specific feature derivation.
//!
//! Kebab dishes read their wrap choices from the radio labels of the
//! additions fragment, each at a zero placeholder price (the page exposes no
//! distinct wrap pricing).  Pizza feature derivation is an explicitly
//! incomplete capability: the source exposes none, so both lists stay
//! empty.  Which variant is built depends on the dish type alone.

use vstd::prelude::*;
use crate::amount::{byn_code, byn_string, Amount};
use crate::dish::{DishFeature, DishFeatureView, DishFeatures, DishFeaturesView, DishType};
use crate::dom::Page;

verus! {

/// The wrap-choice features a label list yields: each label a feature named
/// by it, at zero minor units.
pub open spec fn pita_of_labels(labels: Seq<Seq<char>>) -> Seq<DishFeatureView> {
    labels.map_values(
        |l: Seq<char>| DishFeatureView {
            name: l,
            price: crate::amount::AmountView { minor_units: 0, currency: byn_code() },
        },
    )
}

/// The features a dish type and the fragment's radio labels yield.  The
/// variant is chosen by the type alone; only the kebab variant reads the
/// labels.
pub open spec fn features_spec(t: DishType, labels: Seq<Seq<char>>) -> DishFeaturesView {
    match t {
        DishType::Kebab => DishFeaturesView::Kebab { pita_types: pita_of_labels(labels) },
        DishType::Pizza => DishFeaturesView::Pizza {
            base_types: Seq::empty(),
            crust_types: Seq::empty(),
        },
        DishType::Other => DishFeaturesView::Other,
    }
}

/// Which feature variant is active, as a tag.
pub open spec fn features_tag(f: DishFeaturesView) -> DishType {
    match f {
        DishFeaturesView::Kebab { .. } => DishType::Kebab,
        DishFeaturesView::Pizza { .. } => DishType::Pizza,
        DishFeaturesView::Other => DishType::Other,
    }
}

/// A dish's feature variant is fully determined by its dish type — and so by
/// its resolved category name — never by the fragment's markup: any two
/// fragments yield the same variant tag.
pub proof fn lemma_features_tag_by_type_only(
    t: DishType,
    labels1: Seq<Seq<char>>,
    labels2: Seq<Seq<char>>,
)
    ensures
        features_tag(features_spec(t, labels1)) == features_tag(features_spec(t, labels2)),
        features_tag(features_spec(t, labels1)) == t,
{
}

/// Extracts the wrap-choice features from the additions fragment.
pub fn extract_pita_types(frag: Option<&Page>) -> (r: Vec<DishFeature>)
    ensures
        crate::dish::features_view(r@) == pita_of_labels(
            match frag {
                Some(p) => p.model().radio_labels,
                None => Seq::empty(),
            },
        ),
{
    let mut out: Vec<DishFeature> = Vec::new();
    match frag {
        None => {
            proof {
                assert(crate::dish::features_view(out@) =~~= pita_of_labels(Seq::empty()));
            }
            out
        },
        Some(p) => {
            let labels = p.radio_labels();
            let n = labels.len();
            let mut i: usize = 0;
            while i < n
                invariant
                    0 <= i <= n,
                    n == labels@.len(),
                    crate::dom::strs_view(labels@) == p.model().radio_labels,
                    crate::dish::features_view(out@) =~~= pita_of_labels(
                        crate::dom::strs_view(labels@).take(i as int),
                    ),
                decreases n - i,
            {
                let byn = byn_string();
                let zero = Amount::from_minor(0, byn.as_str());
                let ghost old_out = out@;
                let name = labels[i].clone();
                proof {
                    assert(zero@.currency == byn_code());
                    assert(name@ == labels@[i as int]@);
                }
                out.push(DishFeature { name, price: zero });
                proof {
                    let sv = crate::dom::strs_view(labels@);
                    let fv = crate::dish::features_view(out@);
                    let pl = pita_of_labels(sv.take(i + 1));
                    assert(out@.len() == old_out.len() + 1);
                    assert(crate::dish::features_view(old_out).len() == old_out.len());
                    assert(crate::dish::features_view(old_out) == pita_of_labels(
                        sv.take(i as int),
                    ));
                    assert(sv.take(i as int).len() == i as int);
                    assert(pita_of_labels(sv.take(i as int)).len() == i as int);
                    assert(old_out.len() == i as int);
                    assert(fv.len() == i + 1 && pl.len() == i + 1);
                    assert forall|m: int| 0 <= m < i + 1 implies fv[m] == pl[m] by {
                        assert(fv[m] == out@[m]@);
                        assert(pl[m] == DishFeatureView {
                            name: sv.take(i + 1)[m],
                            price: crate::amount::AmountView {
                                minor_units: 0,
                                currency: byn_code(),
                            },
                        });
                        if m < i {
                            assert(out@[m] == old_out[m]);
                            assert(crate::dish::features_view(old_out)[m] == old_out[m]@);
                            assert(pita_of_labels(sv.take(i as int))[m] == DishFeatureView {
                                name: sv.take(i as int)[m],
                                price: crate::amount::AmountView {
                                    minor_units: 0,
                                    currency: byn_code(),
                                },
                            });
                        } else {
                            assert(sv[i as int] == labels@[i as int]@);
                        }
                    }
                    assert(fv =~= pl);
                }
                i = i + 1;
            }
            proof {
                assert(crate::dom::strs_view(labels@).take(n as int) =~= crate::dom::strs_view(
                    labels@,
                ));
            }
            out
        },
    }
}

/// Derives the dish's features from its type and the additions fragment.
pub fn extract_features(t: DishType, frag: Option<&Page>) -> (r: DishFeatures)
    ensures
        r@ == features_spec(
            t,
            match frag {
                Some(p) => p.model().radio_labels,
                None => Seq::empty(),
            },
        ),
{
    match t {
        DishType::Kebab => DishFeatures::Kebab { pita_types: extract_pita_types(frag) },
        DishType::Pizza => {
            let r = DishFeatures::Pizza { base_types: Vec::new(), crust_types: Vec::new() };
            proof {
                assert(crate::dish::features_view(Seq::<DishFeature>::empty()) =~= Seq::<
                    DishFeatureView,
                >::empty());
            }
            r
        },
        DishType::Other => DishFeatures::Other,
    }
}

} // verus!
