//! Category extraction and dish-type classification.

use lazyfood::{DishType, Page};
use lazyfood::category::{category_name, extract_categories};

#[test]
fn filter_buttons_yield_map() {
    let html = "<html><body><div id=\"filters\">\
        <button data-filter=\".26\">Пицца</button>\
        <button data-filter=\".\">Все</button>\
        </div></body></html>";
    let page = Page::new(html);
    let cats = extract_categories(&page);
    assert_eq!(cats.len(), 1);
    assert_eq!(cats[0].id, "26");
    assert_eq!(cats[0].name, "Пицца");
}

#[test]
fn button_without_filter_attribute_is_skipped() {
    let html = "<html><body><div id=\"filters\">\
        <button>Все</button>\
        <button data-filter=\".parent_id7\">Шаурма</button>\
        </div></body></html>";
    let page = Page::new(html);
    let cats = extract_categories(&page);
    assert_eq!(cats.len(), 1);
    assert_eq!(cats[0].id, "parent_id7");
    assert_eq!(cats[0].name, "Шаурма");
}

#[test]
fn repeated_id_keeps_position_and_takes_latest_name() {
    let html = "<html><body><div id=\"filters\">\
        <button data-filter=\".a1\">Первая</button>\
        <button data-filter=\".b2\">Вторая</button>\
        <button data-filter=\".a1\">Новая</button>\
        </div></body></html>";
    let page = Page::new(html);
    let cats = extract_categories(&page);
    assert_eq!(cats.len(), 2);
    assert_eq!(cats[0].id, "a1");
    assert_eq!(cats[0].name, "Новая");
    assert_eq!(cats[1].id, "b2");
}

#[test]
fn lookup_resolves_and_misses() {
    let html = "<html><body><div id=\"filters\">\
        <button data-filter=\".26\">Пицца</button>\
        </div></body></html>";
    let page = Page::new(html);
    let cats = extract_categories(&page);
    assert_eq!(category_name(&cats, &"26".to_owned()), Some("Пицца".to_owned()));
    assert_eq!(category_name(&cats, &"27".to_owned()), None);
}

#[test]
fn classify_shawarma_is_kebab() {
    assert_eq!(DishType::classify("Шаурма"), DishType::Kebab);
}

#[test]
fn classify_pizza() {
    assert_eq!(DishType::classify("Пицца Маргарита"), DishType::Pizza);
}

#[test]
fn classify_drinks_is_other() {
    assert_eq!(DishType::classify("Напитки"), DishType::Other);
}

#[test]
fn classify_kebab_stem_in_upper_case() {
    assert_eq!(DishType::classify("ДОНЕР-КЕБАБ"), DishType::Kebab);
}
