//! Addition extraction: variants parsed from the fragment's rows and
//! sorted ascending by price, ties in document order.

use lazyfood::{DishError, Page, Quantity, QuantityError};
use lazyfood::additions::extract_additions;
use lazyfood::fragment::fragment_from_response;

fn fragment_page(rows: &str) -> Page {
    Page::new(&format!("<html><body><table>{}</table></body></html>", rows))
}

#[test]
fn variants_come_out_sorted_by_price() {
    let page = fragment_page(
        "<tr class=\"souce_row\"><td class=\"souce_row__title\">Соус</td><td>\
         <select class=\"additionsize\">\
         <option data-price=\"15.00\">250г</option>\
         <option data-price=\"9.50\">100г</option>\
         <option data-price=\"22.00\">500г</option>\
         </select></td></tr>",
    );
    let adds = extract_additions(Some(&page)).unwrap();
    assert_eq!(adds.len(), 1);
    assert_eq!(adds[0].name, "Соус");
    assert_eq!(adds[0].id, "unknown");
    let prices: Vec<i64> = adds[0].variants.iter().map(|v| v.price.minor_units).collect();
    assert_eq!(prices, vec![950, 1500, 2200]);
}

#[test]
fn equal_prices_keep_document_order() {
    let page = fragment_page(
        "<tr class=\"souce_row\"><td class=\"souce_row__title\">Соус</td><td>\
         <select class=\"additionsize\">\
         <option data-price=\"5.00\">200г</option>\
         <option data-price=\"3.00\">100г</option>\
         <option data-price=\"3.00\">150г</option>\
         </select></td></tr>",
    );
    let adds = extract_additions(Some(&page)).unwrap();
    let v = &adds[0].variants;
    assert_eq!(v.len(), 3);
    assert_eq!(v[0].price.minor_units, 300);
    assert_eq!(v[0].quantity, Quantity::Grams(lazyfood::Decimal { mantissa: 100, scale: 0 }));
    assert_eq!(v[1].price.minor_units, 300);
    assert_eq!(v[1].quantity, Quantity::Grams(lazyfood::Decimal { mantissa: 150, scale: 0 }));
    assert_eq!(v[2].price.minor_units, 500);
}

#[test]
fn no_fragment_yields_no_additions() {
    assert_eq!(extract_additions(None).unwrap().len(), 0);
}

#[test]
fn fragment_without_rows_yields_no_additions() {
    let page = Page::new("<html><body><p>пусто</p></body></html>");
    assert_eq!(extract_additions(Some(&page)).unwrap().len(), 0);
}

#[test]
fn missing_title_cell_is_markup_error() {
    let page = fragment_page(
        "<tr class=\"souce_row\"><td>Соус</td><td>\
         <select class=\"additionsize\"><option data-price=\"1.00\">100г</option></select>\
         </td></tr>",
    );
    match extract_additions(Some(&page)) {
        Err(DishError::MarkupShape(what)) => assert_eq!(what, "addition title"),
        other => panic!("expected markup error, got {:?}", other),
    }
}

#[test]
fn missing_price_attribute_is_markup_error() {
    let page = fragment_page(
        "<tr class=\"souce_row\"><td class=\"souce_row__title\">Соус</td><td>\
         <select class=\"additionsize\"><option>100г</option></select>\
         </td></tr>",
    );
    match extract_additions(Some(&page)) {
        Err(DishError::MarkupShape(what)) => assert_eq!(what, "option price"),
        other => panic!("expected markup error, got {:?}", other),
    }
}

#[test]
fn option_without_digits_is_quantity_error() {
    let page = fragment_page(
        "<tr class=\"souce_row\"><td class=\"souce_row__title\">Соус</td><td>\
         <select class=\"additionsize\"><option data-price=\"1.00\">порция</option></select>\
         </td></tr>",
    );
    match extract_additions(Some(&page)) {
        Err(DishError::QuantityParse(QuantityError::NumberNotFound(_))) => {},
        other => panic!("expected quantity error, got {:?}", other),
    }
}

#[test]
fn malformed_price_is_amount_error() {
    let page = fragment_page(
        "<tr class=\"souce_row\"><td class=\"souce_row__title\">Соус</td><td>\
         <select class=\"additionsize\"><option data-price=\"дорого\">100г</option></select>\
         </td></tr>",
    );
    match extract_additions(Some(&page)) {
        Err(DishError::AmountParse(lazyfood::AmountParseError::Malformed)) => {},
        other => panic!("expected amount error, got {:?}", other),
    }
}

#[test]
fn response_member_is_the_fragment() {
    let resp = "{\"orderDishData\": \"<tr class=\\\"souce_row\\\"></tr>\"}";
    assert_eq!(
        fragment_from_response(resp).unwrap(),
        "<tr class=\"souce_row\"></tr>"
    );
}

#[test]
fn response_without_member_is_empty_fragment() {
    assert_eq!(fragment_from_response("{\"other\": 3}").unwrap(), "");
    assert_eq!(fragment_from_response("{\"orderDishData\": 5}").unwrap(), "");
}

#[test]
fn response_that_is_not_json_is_an_error() {
    match fragment_from_response("<html>") {
        Err(DishError::MarkupShape(what)) => assert_eq!(what, "additions response"),
        other => panic!("expected markup error, got {:?}", other),
    }
}
