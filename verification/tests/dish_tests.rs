//! Whole-dish extraction, menu assembly, determinism and the missing
//! order-form boundary.

use lazyfood::{Dish, DishFeatures, Page, Quantity};
use lazyfood::category::extract_categories;
use lazyfood::extract::{build_menu, card_detail_link, extract_dish};
use lazyfood::fragment::additions_request;

fn index_html() -> String {
    "<html><body>\
     <div id=\"filters\">\
     <button data-filter=\".parent_id7\">Шаурма</button>\
     <button data-filter=\".parent_id26\">Пицца</button>\
     </div>\
     <div data-isotope-options=\"{}\">\
     <div class=\"item parent_id7\">\
     <button title=\"Заказать\" data-id=\"101\" data-title=\"Шаурма классическая\"></button>\
     <div class=\"imageDataInfoRow\">\
     <div class=\"left\">350г</div><div class=\"right\">1050</div>\
     </div>\
     <div class=\"imageDataBtnRow\">\
     <div class=\"left\"><a href=\"/dish/101\">Подробнее</a></div>\
     </div>\
     </div>\
     </div>\
     </body></html>"
        .to_owned()
}

fn detail_html_with_form() -> String {
    "<html><body>\
     <div class=\"catalog__single\"><div>\
     <p>Отличная шаурма</p>\
     <ul><li>Мясо</li><li>Лаваш</li></ul>\
     <p>Пищевая ценность: белки 12,5 жиры 8 углеводы 30,2 Энергетическая ценность 250</p>\
     </div></div>\
     <div id=\"catalog__info\" data-action=\"adds\" data-key=\"k1\" data-itemid=\"101\" data-lang=\"ru\"></div>\
     </body></html>"
        .to_owned()
}

fn detail_html_without_form() -> String {
    "<html><body>\
     <div class=\"catalog__single\"><div>\
     <p>Отличная шаурма</p>\
     <ul><li>Мясо</li></ul>\
     </div></div>\
     </body></html>"
        .to_owned()
}

fn fragment_html() -> String {
    "<html><body><table>\
     <tr class=\"souce_row\"><td class=\"souce_row__title\">Соус</td><td>\
     <select class=\"additionsize\">\
     <option data-price=\"2.50\">50г</option>\
     <option data-price=\"1.00\">25г</option>\
     </select></td></tr>\
     </table>\
     <label class=\"radio-container\">Лаваш сырный<input type=\"radio\"></label>\
     <label class=\"radio-container\">Лаваш обычный<input type=\"radio\"></label>\
     </body></html>"
        .to_owned()
}

fn extract_one(index: &Page, detail: &Page, frag: Option<&Page>) -> Dish {
    let cats = extract_categories(index);
    extract_dish(index, 0, &cats, detail, frag).unwrap()
}

#[test]
fn dish_is_assembled_from_all_parts() {
    let index = Page::new(&index_html());
    let detail = Page::new(&detail_html_with_form());
    let frag = Page::new(&fragment_html());
    let dish = extract_one(&index, &detail, Some(&frag));

    assert_eq!(dish.id, "101");
    assert_eq!(dish.name, "Шаурма классическая");
    assert_eq!(dish.category, "Шаурма");
    assert_eq!(dish.ingredients, vec!["Мясо".to_owned(), "Лаваш".to_owned()]);
    let facts = dish.nutrition_facts.unwrap();
    assert_eq!(facts.kilocalories, lazyfood::Decimal { mantissa: 250, scale: 0 });

    assert_eq!(dish.variants.len(), 1);
    assert_eq!(dish.variants[0].name, "unknown");
    assert_eq!(
        dish.variants[0].quantity,
        Quantity::Grams(lazyfood::Decimal { mantissa: 350, scale: 0 })
    );
    assert_eq!(dish.variants[0].price.minor_units, 1050);

    assert_eq!(dish.additions.len(), 1);
    let prices: Vec<i64> =
        dish.additions[0].variants.iter().map(|v| v.price.minor_units).collect();
    assert_eq!(prices, vec![100, 250]);

    match &dish.features {
        DishFeatures::Kebab { pita_types } => {
            let names: Vec<&str> = pita_types.iter().map(|f| f.name.as_str()).collect();
            assert_eq!(names, vec!["Лаваш сырный", "Лаваш обычный"]);
            assert!(pita_types.iter().all(|f| f.price.minor_units == 0));
        },
        other => panic!("expected kebab features, got {:?}", other),
    }
}

#[test]
fn unknown_category_falls_back() {
    let html = index_html().replace(".parent_id7", ".parent_id9");
    // The filter list no longer carries the card's id, so resolution falls
    // back to the placeholder name and classification sees it.
    let index = Page::new(&html);
    let detail = Page::new(&detail_html_without_form());
    let cats = extract_categories(&index);
    let dish = extract_dish(&index, 0, &cats, &detail, None).unwrap();
    assert_eq!(dish.category, "Unknown");
    assert!(matches!(dish.features, DishFeatures::Other));
}

#[test]
fn detail_link_is_read_from_the_card() {
    let index = Page::new(&index_html());
    assert_eq!(card_detail_link(&index, 0).unwrap(), "/dish/101");
    assert!(card_detail_link(&index, 5).is_err());
}

#[test]
fn order_form_parameters_are_read() {
    let detail = Page::new(&detail_html_with_form());
    let req = additions_request(&detail).unwrap().unwrap();
    assert_eq!(req.action, "adds");
    assert_eq!(req.key, "k1");
    assert_eq!(req.item_id, "101");
    assert_eq!(req.lang, "ru");
}

#[test]
fn missing_order_form_is_no_error() {
    let index = Page::new(&index_html());
    let detail = Page::new(&detail_html_without_form());
    assert_eq!(additions_request(&detail).unwrap(), None);
    let dish = extract_one(&index, &detail, None);
    assert_eq!(dish.additions.len(), 0);
    match &dish.features {
        DishFeatures::Kebab { pita_types } => assert_eq!(pita_types.len(), 0),
        other => panic!("expected kebab features, got {:?}", other),
    }
}

#[test]
fn refetching_an_unchanged_snapshot_yields_an_equal_menu() {
    let fetch = || {
        let index = Page::new(&index_html());
        let cats = extract_categories(&index);
        let detail = Page::new(&detail_html_with_form());
        let frag = Page::new(&fragment_html());
        let mut dishes = Vec::new();
        if let Ok(d) = extract_dish(&index, 0, &cats, &detail, Some(&frag)) {
            dishes.push(d);
        }
        build_menu(dishes, cats)
    };
    let m1 = fetch();
    let m2 = fetch();
    assert_eq!(m1, m2);
}
