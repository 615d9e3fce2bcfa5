//! Detail-page extraction: ingredients and nutrition facts.
//!
//! Both read the same descriptive block.  Ingredients are the list items of
//! any list inside it; an absent block yields no ingredients, never an
//! error.  Nutrition facts come from the first paragraph opening with the
//! nutrition prefix, parsed atomically.

use vstd::prelude::*;
use crate::dom::{strs_view, DetailView, Page};
use crate::nutrition::{is_nutrition_text, nutrition_of_text, NutritionFacts};
use crate::text::to_chars;

verus! {

/// The ingredients a detail page yields: the descriptive block's list
/// items, or none where the block is absent.
pub open spec fn ingredients_spec(detail: Option<DetailView>) -> Seq<Seq<char>> {
    match detail {
        Some(dv) => dv.list_items,
        None => Seq::empty(),
    }
}

/// The first paragraph that opens with the nutrition prefix, if any.
pub open spec fn first_nutrition_paragraph(ps: Seq<Seq<char>>) -> Option<Seq<char>>
    decreases ps.len(),
{
    if ps.len() == 0 {
        None
    } else if is_nutrition_text(ps[0]) {
        Some(ps[0])
    } else {
        first_nutrition_paragraph(ps.drop_first())
    }
}

/// The nutrition facts a detail page yields: from the first nutrition
/// paragraph of the descriptive block; `None` where the block, the
/// paragraph, or any of the four numbers is missing.
pub open spec fn nutrition_facts_spec(detail: Option<DetailView>) -> Option<NutritionFacts> {
    match detail {
        None => None,
        Some(dv) => match first_nutrition_paragraph(dv.paragraphs) {
            None => None,
            Some(t) => nutrition_of_text(t),
        },
    }
}

/// Extracts the ingredient list of a dish detail page.
pub fn extract_ingredients(detail: &Page) -> (r: Vec<String>)
    ensures
        strs_view(r@) == ingredients_spec(detail.model().detail),
{
    let r = detail.detail_list_items();
    proof {
        if detail.model().detail is None {
            assert(strs_view(r@) =~= Seq::<Seq<char>>::empty());
        }
    }
    r
}

proof fn lemma_first_nutrition(ps: Seq<Seq<char>>, j: int)
    requires
        0 <= j < ps.len(),
        is_nutrition_text(ps[j]),
        forall|m: int| 0 <= m < j ==> !is_nutrition_text(ps[m]),
    ensures
        first_nutrition_paragraph(ps) == Some(ps[j]),
    decreases j,
{
    if j > 0 {
        assert(!is_nutrition_text(ps[0]));
        assert(ps.drop_first()[j - 1] == ps[j]);
        assert forall|m: int| 0 <= m < j - 1 implies !is_nutrition_text(ps.drop_first()[m]) by {
            assert(ps.drop_first()[m] == ps[m + 1]);
        }
        lemma_first_nutrition(ps.drop_first(), j - 1);
    }
}

proof fn lemma_no_nutrition(ps: Seq<Seq<char>>)
    requires
        forall|m: int| 0 <= m < ps.len() ==> !is_nutrition_text(ps[m]),
    ensures
        first_nutrition_paragraph(ps) is None,
    decreases ps.len(),
{
    if ps.len() > 0 {
        assert forall|m: int| 0 <= m < ps.len() - 1 implies !is_nutrition_text(
            ps.drop_first()[m],
        ) by {
            assert(ps.drop_first()[m] == ps[m + 1]);
        }
        lemma_no_nutrition(ps.drop_first());
    }
}

/// Extracts the nutrition facts of a dish detail page, where its
/// descriptive block holds a nutrition paragraph that parses in full.
pub fn extract_nutrition_facts(detail: &Page) -> (r: Option<NutritionFacts>)
    ensures
        r == nutrition_facts_spec(detail.model().detail),
{
    let ps = match detail.detail_paragraphs() {
        Some(ps) => ps,
        None => {
            return None;
        },
    };
    let ghost pv = strs_view(ps@);
    let n = ps.len();
    let mut j: usize = 0;
    while j < n
        invariant
            0 <= j <= n,
            n == ps@.len(),
            pv == strs_view(ps@),
            detail.model().detail matches Some(dv) && dv.paragraphs == pv,
            forall|m: int| 0 <= m < j ==> !is_nutrition_text(pv[m]),
        decreases n - j,
    {
        let v = to_chars(ps[j].as_str());
        proof {
            assert(v@ == pv[j as int]);
        }
        if crate::nutrition::chars_are_nutrition(&v) {
            proof {
                lemma_first_nutrition(pv, j as int);
            }
            return NutritionFacts::parse_chars(&v);
        }
        j = j + 1;
    }
    proof {
        lemma_no_nutrition(pv);
    }
    None
}

} // verus!
