//! Nutrition-facts parsing: the four fields are read atomically.

use lazyfood::{Decimal, NutritionFacts, Page};

fn dec(mantissa: u64, scale: u32) -> Decimal {
    Decimal { mantissa, scale }
}

#[test]
fn full_paragraph_parses() {
    let text = "Пищевая ценность: белки 12,5 жиры 8 углеводы 30,2 Энергетическая ценность 250";
    let facts = NutritionFacts::parse_text(text).unwrap();
    assert_eq!(facts.proteins, dec(125, 1));
    assert_eq!(facts.fats, dec(8, 0));
    assert_eq!(facts.carbohydrates, dec(302, 1));
    assert_eq!(facts.kilocalories, dec(250, 0));
}

#[test]
fn missing_stem_yields_none() {
    let text = "Пищевая ценность: белки 12,5 жиры 8";
    assert_eq!(NutritionFacts::parse_text(text), None);
}

#[test]
fn stem_without_number_yields_none() {
    let text = "белки жиры углеводы Энергетическая ценность";
    assert_eq!(NutritionFacts::parse_text(text), None);
}

#[test]
fn stems_must_come_in_order() {
    let text = "жиры 8 белки 12,5 углеводы 30,2 Энергетическая ценность 250";
    assert_eq!(NutritionFacts::parse_text(text), None);
}

#[test]
fn detail_page_with_nutrition_paragraph() {
    let html = "<html><body><div class=\"catalog__single\"><div>\
        <p>Вкусное блюдо</p>\
        <ul><li>Мясо</li></ul>\
        <p>Пищевая ценность: белки 10 жиры 5 углеводы 20 Энергетическая ценность 170</p>\
        </div></div></body></html>";
    let page = Page::new(html);
    let facts = lazyfood::detail::extract_nutrition_facts(&page).unwrap();
    assert_eq!(facts.proteins, dec(10, 0));
    assert_eq!(facts.kilocalories, dec(170, 0));
}

#[test]
fn detail_page_without_nutrition_paragraph() {
    let html = "<html><body><div class=\"catalog__single\"><div>\
        <p>Вкусное блюдо</p>\
        </div></div></body></html>";
    let page = Page::new(html);
    assert_eq!(lazyfood::detail::extract_nutrition_facts(&page), None);
}

#[test]
fn page_without_descriptive_block() {
    let page = Page::new("<html><body><p>ничего</p></body></html>");
    assert_eq!(lazyfood::detail::extract_nutrition_facts(&page), None);
}
