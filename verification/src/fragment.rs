//! The additions fragment's two-step indirection.
//!
//! The detail page's order form carries four data attributes; a form-encoded
//! request with them returns a JSON object whose `orderDishData` member is
//! an HTML fragment.  This module reads the form parameters and decodes the
//! response; issuing the request is the transport layer's work.

use vstd::prelude::*;
use crate::dom::{os_view, FormView, Page};
use crate::error::{DishError, DishErrorView};

verus! {

/// The parameters of one additions request, read from the order form.
#[derive(Clone, PartialEq, Eq, Debug)]
pub struct FormRequest {
    pub action: String,
    pub key: String,
    pub item_id: String,
    pub lang: String,
}

/// The mathematical image of a `FormRequest`.
pub struct FormRequestView {
    pub action: Seq<char>,
    pub key: Seq<char>,
    pub item_id: Seq<char>,
    pub lang: Seq<char>,
}

impl View for FormRequest {
    type V = FormRequestView;

    open spec fn view(&self) -> FormRequestView {
        FormRequestView {
            action: self.action@,
            key: self.key@,
            item_id: self.item_id@,
            lang: self.lang@,
        }
    }
}

/// The request an order form yields: nothing where the form is absent (the
/// dish simply has no additions), the four attributes where all are
/// present, and a markup-shape failure where the form is there but an
/// attribute is not.
pub open spec fn form_request_spec(f: Option<FormView>) -> Result<
    Option<FormRequestView>,
    DishErrorView,
> {
    match f {
        None => Ok(None),
        Some(fv) => match (fv.action, fv.key, fv.item_id, fv.lang) {
            (Some(a), Some(k), Some(i), Some(l)) => Ok(
                Some(FormRequestView { action: a, key: k, item_id: i, lang: l }),
            ),
            _ => Err(DishErrorView::MarkupShape("order form attributes"@)),
        },
    }
}

/// Reads the addition-fetch parameters from a detail page.
pub fn additions_request(detail: &Page) -> (r: Result<Option<FormRequest>, DishError>)
    ensures
        match r {
            Ok(Some(req)) => form_request_spec(detail.model().order_form) == Ok::<
                Option<FormRequestView>,
                DishErrorView,
            >(Some(req@)),
            Ok(None) => form_request_spec(detail.model().order_form) == Ok::<
                Option<FormRequestView>,
                DishErrorView,
            >(None),
            Err(e) => form_request_spec(detail.model().order_form) == Err::<
                Option<FormRequestView>,
                DishErrorView,
            >(e@),
        },
{
    let t = match detail.order_form() {
        Some(t) => t,
        None => {
            return Ok(None);
        },
    };
    match (t.0, t.1, t.2, t.3) {
        (Some(action), Some(key), Some(item_id), Some(lang)) => Ok(
            Some(FormRequest { action, key, item_id, lang }),
        ),
        _ => Err(DishError::MarkupShape("order form attributes".to_owned())),
    }
}

/// The view of a doubly optional string.
pub open spec fn oos_view(o: Option<Option<String>>) -> Option<Option<Seq<char>>> {
    match o {
        Some(Some(s)) => Some(Some(s@)),
        Some(None) => Some(None),
        None => None,
    }
}

/// What the `orderDishData` member of a JSON text holds: nothing where the
/// text is not a JSON document, an inner nothing where the member is absent
/// or not a string, else the member's string.  A pure function of the text.
pub uninterp spec fn order_dish_data_of(j: Seq<char>) -> Option<Option<Seq<char>>>;

/// Relies on `serde_json::from_str::<Value>` and `Value`'s variants: JSON
/// decoding is a pure function of the text, and the `orderDishData` member
/// either is a string or is not.
#[verifier::external_body]
fn q_dish_data(s: &str) -> (r: Option<Option<String>>)
    ensures
        oos_view(r) == order_dish_data_of(s@),
{
    match serde_json::from_str::<serde_json::Value>(s) {
        Ok(v) => match &v["orderDishData"] {
            serde_json::Value::String(t) => Some(Some(t.clone())),
            _ => Some(None),
        },
        Err(_) => None,
    }
}

/// The fragment a response text yields: the `orderDishData` member, the
/// empty fragment where the member is absent or not a string, and a
/// markup-shape failure where the text is not JSON at all.
pub open spec fn fragment_spec(j: Seq<char>) -> Result<Seq<char>, DishErrorView> {
    match order_dish_data_of(j) {
        None => Err(DishErrorView::MarkupShape("additions response"@)),
        Some(None) => Ok(Seq::empty()),
        Some(Some(t)) => Ok(t),
    }
}

/// Decodes the additions response into its HTML fragment.
pub fn fragment_from_response(s: &str) -> (r: Result<String, DishError>)
    ensures
        match r {
            Ok(t) => fragment_spec(s@) == Ok::<Seq<char>, DishErrorView>(t@),
            Err(e) => fragment_spec(s@) == Err::<Seq<char>, DishErrorView>(e@),
        },
{
    match q_dish_data(s) {
        None => Err(DishError::MarkupShape("additions response".to_owned())),
        Some(None) => Ok(String::new()),
        Some(Some(t)) => Ok(t),
    }
}

} // verus!
