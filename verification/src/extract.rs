//! Dish extraction and menu assembly.
//!
//! A dish is read from its index-page card (order-button attributes, the
//! raw category id inside the card's class list, the summary row's quantity
//! and price texts, the detail-page link), its detail page, and its
//! additions fragment.  Every step that the page structure does not
//! guarantee yields a dish-level error, isolating one malformed card from
//! the rest of the catalog.

use vstd::prelude::*;
use vstd::string::StrSliceExecFns;
use crate::additions::{additions_of_rows, extract_additions};
use crate::amount::{byn_code, byn_string, parse_integer_amount_spec, Amount};
use crate::category::{category_name, cats_view, categories_of, lookup_spec, Category};
use crate::detail::{
    extract_ingredients, extract_nutrition_facts, ingredients_spec, nutrition_facts_spec,
};
use crate::dish::{Dish, DishType, DishVariant, DishVariantView, DishView};
use crate::dom::{html_doc_view, DocView, Page};
use crate::error::{DishError, DishErrorView};
use crate::features::{extract_features, features_spec};
use crate::quantity::{parse_quantity_spec, Quantity};
use crate::text::to_chars;

verus! {

/// ASCII whitespace, as the card's class list is split on it.
pub open spec fn is_ascii_space(c: char) -> bool {
    c == ' ' || c == '\t' || c == '\n' || c == '\r' || c == '\u{c}'
}

/// Where the class token starting at `from` ends.
pub open spec fn token_end(s: Seq<char>, from: int) -> int
    decreases s.len() - from,
{
    if from < 0 || from >= s.len() {
        from
    } else if is_ascii_space(s[from]) {
        from
    } else {
        token_end(s, from + 1)
    }
}

/// The class-token prefix that carries the raw category id.
pub open spec fn parent_prefix() -> Seq<char> {
    seq!['p', 'a', 'r', 'e', 'n', 't', '_', 'i', 'd']
}

proof fn lemma_token_end(s: Seq<char>, from: int)
    requires
        0 <= from <= s.len(),
    ensures
        from <= token_end(s, from) <= s.len(),
        from < s.len() && !is_ascii_space(s[from]) ==> token_end(s, from) > from,
        forall|m: int| from <= m < token_end(s, from) ==> !is_ascii_space(s[m]),
        token_end(s, from) < s.len() ==> is_ascii_space(s[token_end(s, from)]),
    decreases s.len() - from,
{
    if from < s.len() && !is_ascii_space(s[from]) {
        lemma_token_end(s, from + 1);
    }
}

/// The first whitespace-separated token of `s` at or after `from` that
/// opens with the category prefix, if any.
pub open spec fn parent_token_from(s: Seq<char>, from: int) -> Option<Seq<char>>
    decreases s.len() - from,
    via parent_token_decreases
{
    if from < 0 || from >= s.len() {
        None
    } else if is_ascii_space(s[from]) {
        parent_token_from(s, from + 1)
    } else {
        let e = token_end(s, from);
        let tok = s.subrange(from, e);
        if tok.len() >= parent_prefix().len() && tok.subrange(0, parent_prefix().len() as int)
            == parent_prefix() {
            Some(tok)
        } else {
            parent_token_from(s, e)
        }
    }
}

#[via_fn]
proof fn parent_token_decreases(s: Seq<char>, from: int) {
    if 0 <= from < s.len() && !is_ascii_space(s[from]) {
        lemma_token_end(s, from);
    }
}

/// ASCII-whitespace test on one character.
fn ascii_space_check(c: char) -> (b: bool)
    ensures
        b == is_ascii_space(c),
{
    let u = c as u32;
    u == 0x20 || u == 0x9 || u == 0xa || u == 0xd || u == 0xc
}

/// The executable form of `parent_prefix`.
fn parent_prefix_vec() -> (v: Vec<char>)
    ensures
        v@ == parent_prefix(),
{
    let mut v: Vec<char> = Vec::new();
    v.push('p');
    v.push('a');
    v.push('r');
    v.push('e');
    v.push('n');
    v.push('t');
    v.push('_');
    v.push('i');
    v.push('d');
    proof {
        assert(v@ =~= parent_prefix());
    }
    v
}

/// The bounds of the first class token opening with the category prefix.
fn find_parent_token(v: &Vec<char>) -> (r: Option<(usize, usize)>)
    ensures
        match r {
            Some((from, e)) => from <= e <= v@.len() && parent_token_from(v@, 0) == Some(
                v@.subrange(from as int, e as int),
            ),
            None => parent_token_from(v@, 0) is None,
        },
{
    let pfx = parent_prefix_vec();
    let n = v.len();
    let mut i: usize = 0;
    while i < n
        invariant
            0 <= i <= n,
            n == v@.len(),
            pfx@ == parent_prefix(),
            parent_token_from(v@, 0) == parent_token_from(v@, i as int),
        decreases n - i,
    {
        if ascii_space_check(v[i]) {
            i = i + 1;
        } else {
            let mut e: usize = i;
            while e < n && !ascii_space_check(v[e])
                invariant
                    i <= e <= n,
                    n == v@.len(),
                    forall|m: int| i <= m < e ==> !is_ascii_space(v@[m]),
                decreases n - e,
            {
                e = e + 1;
            }
            proof {
                lemma_token_end(v@, i as int);
                assert(token_end(v@, i as int) == e) by {
                    let te = token_end(v@, i as int);
                    if te < e {
                        assert(!is_ascii_space(v@[te]));
                    }
                    if te > e {
                        assert(!is_ascii_space(v@[e as int]));
                    }
                }
            }
            let tok_len = e - i;
            let is_match = tok_len >= pfx.len() && crate::text::slice_matches(v, i, &pfx);
            let ghost tok = v@.subrange(i as int, e as int);
            if is_match {
                proof {
                    assert(v@.subrange(i as int, i + parent_prefix().len()) =~= parent_prefix());
                    assert(tok.subrange(0, parent_prefix().len() as int) =~= v@.subrange(
                        i as int,
                        i + parent_prefix().len(),
                    ));
                }
                return Some((i, e));
            }
            proof {
                if tok.len() >= parent_prefix().len() && tok.subrange(
                    0,
                    parent_prefix().len() as int,
                ) == parent_prefix() {
                    assert(v@.subrange(i as int, i + parent_prefix().len()) =~= tok.subrange(
                        0,
                        parent_prefix().len() as int,
                    ));
                    assert(false);
                }
            }
            i = e;
        }
    }
    None
}

/// The detail-page link of one card, or why it cannot be had.
pub open spec fn detail_link_spec(index: DocView, i: int) -> Result<Seq<char>, DishErrorView> {
    if !(0 <= i < index.cards.len()) {
        Err(DishErrorView::MarkupShape("dish card"@))
    } else {
        match index.cards[i].link {
            Some(l) => Ok(l),
            None => Err(DishErrorView::MarkupShape("detail link"@)),
        }
    }
}

/// Reads the detail-page link of one card.
pub fn card_detail_link(index: &Page, i: usize) -> (r: Result<String, DishError>)
    ensures
        match r {
            Ok(l) => detail_link_spec(index.model(), i as int) == Ok::<Seq<char>, DishErrorView>(
                l@,
            ),
            Err(e) => detail_link_spec(index.model(), i as int) == Err::<Seq<char>, DishErrorView>(
                e@,
            ),
        },
{
    if i >= index.card_count() {
        return Err(DishError::MarkupShape("dish card".to_owned()));
    }
    match index.card_link(i) {
        Some(l) => Ok(l),
        None => Err(DishError::MarkupShape("detail link".to_owned())),
    }
}

/// What dish extraction returns, for every card index, category list,
/// detail page and additions fragment.  Each field of the result is pinned:
/// the id and name from the order button, the category resolved through the
/// list with `Unknown` as the fallback, the ingredients and nutrition facts
/// from the detail page, the features by the classified category, the
/// additions sorted by price, and the single variant from the summary row.
pub open spec fn extract_dish_spec(
    index: DocView,
    i: int,
    cats: Seq<crate::category::CategoryView>,
    detail: DocView,
    frag: Option<DocView>,
) -> Result<DishView, DishErrorView> {
    if !(0 <= i < index.cards.len()) {
        Err(DishErrorView::MarkupShape("dish card"@))
    } else {
        let card = index.cards[i];
        if card.order_id is None || card.order_title is None {
            Err(DishErrorView::MarkupShape("order button"@))
        } else if card.class_attr is None {
            Err(DishErrorView::MarkupShape("card class"@))
        } else if parent_token_from(card.class_attr->Some_0, 0) is None {
            Err(DishErrorView::MarkupShape("category class"@))
        } else if card.quantity_text is None || card.price_text is None {
            Err(DishErrorView::MarkupShape("summary row"@))
        } else {
            let raw_id = parent_token_from(card.class_attr->Some_0, 0)->Some_0;
            let category = match lookup_spec(cats, raw_id) {
                Some(nm) => nm,
                None => "Unknown"@,
            };
            let rows = match frag {
                Some(f) => f.addition_rows,
                None => Seq::empty(),
            };
            let labels = match frag {
                Some(f) => f.radio_labels,
                None => Seq::empty(),
            };
            match additions_of_rows(rows) {
                Err(e) => Err(e),
                Ok(adds) => match parse_quantity_spec(card.quantity_text->Some_0) {
                    Err(e) => Err(DishErrorView::QuantityParse(e)),
                    Ok(q) => match parse_integer_amount_spec(card.price_text->Some_0, byn_code()) {
                        Err(e) => Err(DishErrorView::AmountParse(e)),
                        Ok(price) => Ok(
                            DishView {
                                id: card.order_id->Some_0,
                                category,
                                name: card.order_title->Some_0,
                                ingredients: ingredients_spec(detail.detail),
                                features: features_spec(
                                    crate::dish::classify_spec(category),
                                    labels,
                                ),
                                nutrition_facts: nutrition_facts_spec(detail.detail),
                                variants: seq![
                                    DishVariantView { name: "unknown"@, quantity: q, price },
                                ],
                                additions: adds,
                            },
                        ),
                    },
                },
            }
        }
    }
}

/// Extracts one dish from its card, the category list, its detail page and
/// its additions fragment (`None` where the detail page has no order form).
pub fn extract_dish(
    index: &Page,
    i: usize,
    cats: &Vec<Category>,
    detail: &Page,
    frag: Option<&Page>,
) -> (r: Result<Dish, DishError>)
    ensures
        ({
            let fragm = match frag {
                Some(f) => Some(f.model()),
                None => None,
            };
            match r {
                Ok(d) => extract_dish_spec(
                    index.model(),
                    i as int,
                    cats_view(cats@),
                    detail.model(),
                    fragm,
                ) == Ok::<DishView, DishErrorView>(d@),
                Err(e) => extract_dish_spec(
                    index.model(),
                    i as int,
                    cats_view(cats@),
                    detail.model(),
                    fragm,
                ) == Err::<DishView, DishErrorView>(e@),
            }
        }),
{
    if i >= index.card_count() {
        return Err(DishError::MarkupShape("dish card".to_owned()));
    }
    let (oid, otitle) = index.card_order(i);
    let (id, name) = match (oid, otitle) {
        (Some(id), Some(name)) => (id, name),
        _ => {
            return Err(DishError::MarkupShape("order button".to_owned()));
        },
    };
    let class_attr = match index.card_class(i) {
        Some(c) => c,
        None => {
            return Err(DishError::MarkupShape("card class".to_owned()));
        },
    };
    let cv = to_chars(class_attr.as_str());
    let (tf, te) = match find_parent_token(&cv) {
        Some(b) => b,
        None => {
            return Err(DishError::MarkupShape("category class".to_owned()));
        },
    };
    let raw_id: String = class_attr.as_str().substring_char(tf, te).to_owned();
    let (qt, pt) = match index.card_info(i) {
        (Some(qt), Some(pt)) => (qt, pt),
        _ => {
            return Err(DishError::MarkupShape("summary row".to_owned()));
        },
    };
    let category: String = match category_name(cats, &raw_id) {
        Some(nm) => nm,
        None => "Unknown".to_owned(),
    };
    let additions = match extract_additions(frag) {
        Ok(adds) => adds,
        Err(e) => {
            return Err(e);
        },
    };
    let dish_type = DishType::classify(category.as_str());
    let features = extract_features(dish_type, frag);
    let ingredients = extract_ingredients(detail);
    let nutrition_facts = extract_nutrition_facts(detail);
    let quantity = match Quantity::parse(qt.as_str()) {
        Ok(q) => q,
        Err(e) => {
            return Err(DishError::QuantityParse(e));
        },
    };
    let byn = byn_string();
    let price = match Amount::from_integer_str(pt.as_str(), byn.as_str()) {
        Ok(a) => a,
        Err(e) => {
            return Err(DishError::AmountParse(e));
        },
    };
    let mut variants: Vec<DishVariant> = Vec::new();
    variants.push(DishVariant { name: "unknown".to_owned(), quantity, price });
    let d = Dish {
        id,
        category,
        name,
        ingredients,
        features,
        nutrition_facts,
        variants,
        additions,
    };
    proof {
        assert(d@.variants =~= seq![
            DishVariantView { name: "unknown"@, quantity: d.variants@[0].quantity, price: d.variants@[0].price@ },
        ]);
    }
    Ok(d)
}

/// A fetched menu: the dishes in card order and the category list.
#[derive(Clone, PartialEq, Eq, Debug)]
pub struct Menu {
    pub dishes: Vec<Dish>,
    pub categories: Vec<Category>,
}

/// The mathematical image of a `Menu`.
pub struct MenuView {
    pub dishes: Seq<DishView>,
    pub categories: Seq<crate::category::CategoryView>,
}

impl View for Menu {
    type V = MenuView;

    open spec fn view(&self) -> MenuView {
        MenuView {
            dishes: self.dishes@.map_values(|d: Dish| d@),
            categories: cats_view(self.categories@),
        }
    }
}

/// Assembles the fetched parts into a menu.
pub fn build_menu(dishes: Vec<Dish>, categories: Vec<Category>) -> (m: Menu)
    ensures
        m@.dishes == dishes@.map_values(|d: Dish| d@),
        m@.categories == cats_view(categories@),
{
    Menu { dishes, categories }
}

/// The dishes the first `n` cards of a snapshot yield, a failing card
/// skipped, the rest in card order.
pub open spec fn dishes_upto(
    index: DocView,
    cats: Seq<crate::category::CategoryView>,
    details: Seq<DocView>,
    frags: Seq<Option<DocView>>,
    n: int,
) -> Seq<DishView>
    decreases n,
{
    if n <= 0 {
        Seq::empty()
    } else {
        let pre = dishes_upto(index, cats, details, frags, n - 1);
        match extract_dish_spec(index, n - 1, cats, details[n - 1], frags[n - 1]) {
            Ok(d) => pre.push(d),
            Err(_) => pre,
        }
    }
}

/// The menu one page snapshot yields: the categories of the index page's
/// filter buttons, and one dish per card, extracted against the card's
/// detail markup and additions fragment.
pub open spec fn menu_of_snapshot(
    index_html: Seq<char>,
    detail_htmls: Seq<Seq<char>>,
    frag_htmls: Seq<Option<Seq<char>>>,
) -> MenuView {
    let index = html_doc_view(index_html);
    let cats = categories_of(index.buttons);
    MenuView {
        dishes: dishes_upto(
            index,
            cats,
            detail_htmls.map_values(|h: Seq<char>| html_doc_view(h)),
            frag_htmls.map_values(
                |o: Option<Seq<char>>|
                    match o {
                        Some(h) => Some(html_doc_view(h)),
                        None => None,
                    },
            ),
            index.cards.len() as int,
        ),
        categories: cats,
    }
}

/// Extraction is deterministic: against an unchanged page snapshot — the
/// same index markup, the same detail markup per card, the same additions
/// fragment per card — re-running the fetch yields a menu equal field for
/// field to a prior run.
pub proof fn lemma_menu_deterministic(
    index_html: Seq<char>,
    detail_htmls: Seq<Seq<char>>,
    frag_htmls: Seq<Option<Seq<char>>>,
    m1: MenuView,
    m2: MenuView,
)
    requires
        m1 == menu_of_snapshot(index_html, detail_htmls, frag_htmls),
        m2 == menu_of_snapshot(index_html, detail_htmls, frag_htmls),
    ensures
        m1 == m2,
{
}

/// The feature-tag invariant, at the extraction result: an extracted dish's
/// feature variant is the one its resolved category name classifies to,
/// whatever the fragment held.
pub proof fn lemma_dish_features_by_category(
    index: DocView,
    i: int,
    cats: Seq<crate::category::CategoryView>,
    detail: DocView,
    frag: Option<DocView>,
)
    ensures
        extract_dish_spec(index, i, cats, detail, frag) matches Ok(d)
            ==> crate::features::features_tag(d.features) == crate::dish::classify_spec(
            d.category,
        ),
{
    if extract_dish_spec(index, i, cats, detail, frag) is Ok {
        let d = extract_dish_spec(index, i, cats, detail, frag)->Ok_0;
        let labels = match frag {
            Some(f) => f.radio_labels,
            None => Seq::empty(),
        };
        crate::features::lemma_features_tag_by_type_only(
            crate::dish::classify_spec(d.category),
            labels,
            labels,
        );
    }
}

/// A detail page without an order form is no error: the dish extracts with
/// no additions, and its feature lists, where its type carries any, are
/// empty.  Where extraction fails regardless, it fails for a reason
/// independent of the fragment: it fails with any fragment too.
pub proof fn lemma_missing_order_form(
    index: DocView,
    i: int,
    cats: Seq<crate::category::CategoryView>,
    detail: DocView,
    frag: Option<DocView>,
)
    ensures
        extract_dish_spec(index, i, cats, detail, None) matches Ok(d) ==> {
            &&& d.additions =~= Seq::<crate::dish::AdditionView>::empty()
            &&& (d.features matches crate::dish::DishFeaturesView::Kebab { pita_types }
                ==> pita_types =~= Seq::<crate::dish::DishFeatureView>::empty())
            &&& (d.features matches crate::dish::DishFeaturesView::Pizza { base_types, crust_types }
                ==> base_types =~= Seq::<crate::dish::DishFeatureView>::empty() && crust_types
                    =~= Seq::<crate::dish::DishFeatureView>::empty())
        },
        extract_dish_spec(index, i, cats, detail, None) is Err ==> extract_dish_spec(
            index,
            i,
            cats,
            detail,
            frag,
        ) is Err,
{
    assert(additions_of_rows(Seq::empty()) == Ok::<
        Seq<crate::dish::AdditionView>,
        DishErrorView,
    >(Seq::empty()));
}

} // verus!
