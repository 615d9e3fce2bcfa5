//! The markup boundary.
//!
//! Markup tokenization and tree construction are not this library's subject:
//! they are delegated to the `select` crate.  A parsed page is carried as an
//! opaque `Document`; what the extraction logic reads out of it is described
//! by one mathematical model, `DocView`, and a fixed set of trusted queries,
//! each a direct transcription of one selector chain.  Everything that
//! interprets the queried text is verified against that model.

use vstd::prelude::*;
use select::document::Document;
use select::predicate::{Attr, Class, Element, Name, Predicate, Text};

verus! {

#[verifier::external_type_specification]
#[verifier::external_body]
pub struct ExDocument(Document);

/// One filter button of the index page: its `data-filter` attribute and the
/// text of its first child node.
pub struct ButtonView {
    pub filter: Option<Seq<char>>,
    pub label: Option<Seq<char>>,
}

/// One dish card of the index page, as far as the extraction reads it.
pub struct CardView {
    /// `data-id` of the order button, where the button and attribute exist.
    pub order_id: Option<Seq<char>>,
    /// `data-title` of the order button.
    pub order_title: Option<Seq<char>>,
    /// The card's `class` attribute.
    pub class_attr: Option<Seq<char>>,
    /// Text of the summary row's left cell (the quantity).
    pub quantity_text: Option<Seq<char>>,
    /// Text of the summary row's right cell (the price).
    pub price_text: Option<Seq<char>>,
    /// `href` of the detail-page anchor.
    pub link: Option<Seq<char>>,
}

/// The descriptive block of a dish detail page: its paragraph texts and its
/// list-item texts.
pub struct DetailView {
    pub paragraphs: Seq<Seq<char>>,
    pub list_items: Seq<Seq<char>>,
}

/// The order form element of a detail page, carrying the addition-fetch
/// parameters.
pub struct FormView {
    pub action: Option<Seq<char>>,
    pub key: Option<Seq<char>>,
    pub item_id: Option<Seq<char>>,
    pub lang: Option<Seq<char>>,
}

/// One size option of an addition row: its text and its `data-price`
/// attribute.
pub struct OptView {
    pub label: Seq<char>,
    pub price_attr: Option<Seq<char>>,
}

/// One addition row of the additions fragment.
pub struct RowView {
    pub title: Option<Seq<char>>,
    pub options: Seq<OptView>,
}

/// Everything the extraction logic reads out of one parsed document.
pub struct DocView {
    pub buttons: Seq<ButtonView>,
    pub cards: Seq<CardView>,
    pub detail: Option<DetailView>,
    pub order_form: Option<FormView>,
    pub addition_rows: Seq<RowView>,
    pub radio_labels: Seq<Seq<char>>,
}

/// The model of a parsed document.
pub uninterp spec fn doc_view(d: Document) -> DocView;

/// The model that parsing a given markup text yields: parsing is a pure
/// function of the text.
pub uninterp spec fn html_doc_view(html: Seq<char>) -> DocView;

/// The view of an optional owned string.
pub open spec fn os_view(o: Option<String>) -> Option<Seq<char>> {
    match o {
        Some(s) => Some(s@),
        None => None,
    }
}

/// The views of a sequence of owned strings.
pub open spec fn strs_view(v: Seq<String>) -> Seq<Seq<char>> {
    v.map_values(|s: String| s@)
}

/// The views of queried option cells.
pub open spec fn opts_view(v: Seq<(String, Option<String>)>) -> Seq<OptView> {
    v.map_values(|p: (String, Option<String>)| OptView { label: p.0@, price_attr: os_view(p.1) })
}

/// Relies on `select`'s `Document::from(&str)`: parsing markup is a pure
/// function of the text.
#[verifier::external_body]
fn doc_from_str(html: &str) -> (d: Document)
    ensures
        doc_view(d) == html_doc_view(html@),
{
    Document::from(html)
}

/// Relies on `select`'s find/children/filter: the filter buttons are the
/// button children of the `#filters` container, in document order.
#[verifier::external_body]
fn q_button_count(d: &Document) -> (n: usize)
    ensures
        n == doc_view(*d).buttons.len(),
{
    d.find(Name("div").and(Attr("id", "filters")))
        .into_selection()
        .children()
        .filter(Name("button"))
        .len()
}

/// Relies on `select`'s node queries: one filter button's `data-filter`
/// attribute and first-child text.
#[verifier::external_body]
fn q_button(d: &Document, i: usize) -> (r: (Option<String>, Option<String>))
    requires
        i < doc_view(*d).buttons.len(),
    ensures
        os_view(r.0) == doc_view(*d).buttons[i as int].filter,
        os_view(r.1) == doc_view(*d).buttons[i as int].label,
{
    let sel = d.find(Name("div").and(Attr("id", "filters")))
        .into_selection()
        .children()
        .filter(Name("button"));
    let node = sel.iter().nth(i).unwrap();
    (node.attr("data-filter").map(|s| s.to_owned()), node.first_child().map(|c| c.text()))
}

/// Relies on `select`'s find/children/filter: the dish cards are the element
/// children of the `data-isotope-options` container, in document order.
#[verifier::external_body]
fn q_card_count(d: &Document) -> (n: usize)
    ensures
        n == doc_view(*d).cards.len(),
{
    d.find(Name("div").and(Attr("data-isotope-options", ())))
        .into_selection()
        .children()
        .filter(Element)
        .len()
}

/// Relies on `select`'s node queries: one card's order button and its
/// `data-id`/`data-title` attributes.
#[verifier::external_body]
fn q_card_order(d: &Document, i: usize) -> (r: (Option<String>, Option<String>))
    requires
        i < doc_view(*d).cards.len(),
    ensures
        os_view(r.0) == doc_view(*d).cards[i as int].order_id,
        os_view(r.1) == doc_view(*d).cards[i as int].order_title,
{
    let sel = d.find(Name("div").and(Attr("data-isotope-options", ())))
        .into_selection()
        .children()
        .filter(Element);
    let node = sel.iter().nth(i).unwrap();
    match node.find(Name("button").and(Attr("title", "Заказать"))).next() {
        Some(b) => (b.attr("data-id").map(|s| s.to_owned()), b.attr("data-title").map(|s| s.to_owned())),
        None => (None, None),
    }
}

/// Relies on `select`'s node queries: one card's `class` attribute.
#[verifier::external_body]
fn q_card_class(d: &Document, i: usize) -> (r: Option<String>)
    requires
        i < doc_view(*d).cards.len(),
    ensures
        os_view(r) == doc_view(*d).cards[i as int].class_attr,
{
    let sel = d.find(Name("div").and(Attr("data-isotope-options", ())))
        .into_selection()
        .children()
        .filter(Element);
    let node = sel.iter().nth(i).unwrap();
    node.attr("class").map(|s| s.to_owned())
}

/// Relies on `select`'s node queries: one card's summary row and the texts
/// of its left and right cells.
#[verifier::external_body]
fn q_card_info(d: &Document, i: usize) -> (r: (Option<String>, Option<String>))
    requires
        i < doc_view(*d).cards.len(),
    ensures
        os_view(r.0) == doc_view(*d).cards[i as int].quantity_text,
        os_view(r.1) == doc_view(*d).cards[i as int].price_text,
{
    let sel = d.find(Name("div").and(Attr("data-isotope-options", ())))
        .into_selection()
        .children()
        .filter(Element);
    let node = sel.iter().nth(i).unwrap();
    match node.find(Attr("class", "imageDataInfoRow")).next() {
        Some(row) => (
            row.find(Attr("class", "left")).next().map(|n| n.text()),
            row.find(Attr("class", "right")).next().map(|n| n.text()),
        ),
        None => (None, None),
    }
}

/// Relies on `select`'s node queries: one card's detail-page link, an anchor
/// under the left cell of the button row.
#[verifier::external_body]
fn q_card_link(d: &Document, i: usize) -> (r: Option<String>)
    requires
        i < doc_view(*d).cards.len(),
    ensures
        os_view(r) == doc_view(*d).cards[i as int].link,
{
    let sel = d.find(Name("div").and(Attr("data-isotope-options", ())))
        .into_selection()
        .children()
        .filter(Element);
    let node = sel.iter().nth(i).unwrap();
    node.find(Attr("class", "imageDataBtnRow")).next()
        .and_then(|row| row.find(Attr("class", "left").child(Name("a"))).next())
        .and_then(|a| a.attr("href"))
        .map(|s| s.to_owned())
}

/// Relies on `select`'s descendant queries: the descriptive block is the
/// parent of the first paragraph-or-list under the single-item container;
/// its paragraph texts are returned in document order.
#[verifier::external_body]
fn q_detail_paragraphs(d: &Document) -> (r: Option<Vec<String>>)
    ensures
        match r {
            Some(ps) => doc_view(*d).detail matches Some(dv) && strs_view(ps@) == dv.paragraphs,
            None => doc_view(*d).detail is None,
        },
{
    let block = d.find(Class("catalog__single").descendant(Name("p").or(Name("ul"))))
        .next()
        .and_then(|n| n.parent());
    block.map(|b| b.find(Name("p")).map(|n| n.text()).collect())
}

/// Relies on `select`'s queries: the texts of the list items under any list
/// of the descriptive block, in document order; empty where the block is
/// absent.
#[verifier::external_body]
fn q_detail_list_items(d: &Document) -> (r: Vec<String>)
    ensures
        match doc_view(*d).detail {
            Some(dv) => strs_view(r@) == dv.list_items,
            None => r@.len() == 0,
        },
{
    let block = d.find(Class("catalog__single").descendant(Name("p").or(Name("ul"))))
        .next()
        .and_then(|n| n.parent());
    match block {
        Some(b) => b.find(Name("ul"))
            .into_selection()
            .children()
            .filter(Name("li"))
            .iter()
            .map(|n| n.text())
            .collect(),
        None => Vec::new(),
    }
}

/// Relies on `select`'s queries: the order form element `#catalog__info` and
/// its four data attributes.
#[verifier::external_body]
fn q_order_form(d: &Document) -> (r: Option<
    (Option<String>, Option<String>, Option<String>, Option<String>),
>)
    ensures
        match r {
            Some(t) => doc_view(*d).order_form matches Some(f) && os_view(t.0) == f.action
                && os_view(t.1) == f.key && os_view(t.2) == f.item_id && os_view(t.3) == f.lang,
            None => doc_view(*d).order_form is None,
        },
{
    d.find(Attr("id", "catalog__info")).next().map(|n| (
        n.attr("data-action").map(|s| s.to_owned()),
        n.attr("data-key").map(|s| s.to_owned()),
        n.attr("data-itemid").map(|s| s.to_owned()),
        n.attr("data-lang").map(|s| s.to_owned()),
    ))
}

/// Relies on `select`'s queries: the addition rows are the element nodes
/// among the `tr.souce_row` matches, in document order.
#[verifier::external_body]
fn q_row_count(d: &Document) -> (n: usize)
    ensures
        n == doc_view(*d).addition_rows.len(),
{
    d.find(Name("tr").and(Class("souce_row"))).into_selection().filter(Element).len()
}

/// Relies on `select`'s node queries: one addition row's title-cell text.
#[verifier::external_body]
fn q_row_title(d: &Document, i: usize) -> (r: Option<String>)
    requires
        i < doc_view(*d).addition_rows.len(),
    ensures
        os_view(r) == doc_view(*d).addition_rows[i as int].title,
{
    let sel = d.find(Name("tr").and(Class("souce_row"))).into_selection().filter(Element);
    let row = sel.iter().nth(i).unwrap();
    row.find(Name("td").and(Class("souce_row__title"))).next().map(|n| n.text())
}

/// Relies on `select`'s node queries: one addition row's size options, each
/// option's text and `data-price` attribute, in document order.
#[verifier::external_body]
fn q_row_options(d: &Document, i: usize) -> (r: Vec<(String, Option<String>)>)
    requires
        i < doc_view(*d).addition_rows.len(),
    ensures
        opts_view(r@) == doc_view(*d).addition_rows[i as int].options,
{
    let sel = d.find(Name("tr").and(Class("souce_row"))).into_selection().filter(Element);
    let row = sel.iter().nth(i).unwrap();
    row.find(Name("select").and(Class("additionsize")))
        .into_selection()
        .children()
        .filter(Name("option"))
        .iter()
        .map(|n| (n.text(), n.attr("data-price").map(|s| s.to_owned())))
        .collect()
}

/// Relies on `select`'s queries: the texts of the first text node of each
/// `label.radio-container`, in document order, labels without a text node
/// skipped.
#[verifier::external_body]
fn q_radio_labels(d: &Document) -> (r: Vec<String>)
    ensures
        strs_view(r@) == doc_view(*d).radio_labels,
{
    d.find(Name("label").and(Class("radio-container")))
        .into_selection()
        .iter()
        .filter_map(|n| n.find(Text).next())
        .map(|n| n.text())
        .collect()
}

/// A parsed page, ready for extraction.  Wraps the markup library's document
/// so that every public extraction function can speak of one model.
pub struct Page {
    doc: Document,
}

impl Page {
    /// The mathematical model of the page.
    pub closed spec fn model(self) -> DocView {
        doc_view(self.doc)
    }

    /// Parses markup text.  Equal texts yield pages with equal models.
    pub fn new(html: &str) -> (p: Page)
        ensures
            p.model() == html_doc_view(html@),
    {
        Page { doc: doc_from_str(html) }
    }

    /// How many filter buttons the page has.
    pub fn button_count(&self) -> (n: usize)
        ensures
            n == self.model().buttons.len(),
    {
        q_button_count(&self.doc)
    }

    /// One filter button's `data-filter` attribute and first-child text.
    pub fn button(&self, i: usize) -> (r: (Option<String>, Option<String>))
        requires
            i < self.model().buttons.len(),
        ensures
            os_view(r.0) == self.model().buttons[i as int].filter,
            os_view(r.1) == self.model().buttons[i as int].label,
    {
        q_button(&self.doc, i)
    }

    /// How many dish cards the page has.
    pub fn card_count(&self) -> (n: usize)
        ensures
            n == self.model().cards.len(),
    {
        q_card_count(&self.doc)
    }

    /// One card's order-button attributes: `data-id` and `data-title`.
    pub fn card_order(&self, i: usize) -> (r: (Option<String>, Option<String>))
        requires
            i < self.model().cards.len(),
        ensures
            os_view(r.0) == self.model().cards[i as int].order_id,
            os_view(r.1) == self.model().cards[i as int].order_title,
    {
        q_card_order(&self.doc, i)
    }

    /// One card's `class` attribute.
    pub fn card_class(&self, i: usize) -> (r: Option<String>)
        requires
            i < self.model().cards.len(),
        ensures
            os_view(r) == self.model().cards[i as int].class_attr,
    {
        q_card_class(&self.doc, i)
    }

    /// One card's summary-row cell texts: quantity and price.
    pub fn card_info(&self, i: usize) -> (r: (Option<String>, Option<String>))
        requires
            i < self.model().cards.len(),
        ensures
            os_view(r.0) == self.model().cards[i as int].quantity_text,
            os_view(r.1) == self.model().cards[i as int].price_text,
    {
        q_card_info(&self.doc, i)
    }

    /// One card's detail-page link.
    pub fn card_link(&self, i: usize) -> (r: Option<String>)
        requires
            i < self.model().cards.len(),
        ensures
            os_view(r) == self.model().cards[i as int].link,
    {
        q_card_link(&self.doc, i)
    }

    /// The paragraph texts of the descriptive block, where the block exists.
    pub fn detail_paragraphs(&self) -> (r: Option<Vec<String>>)
        ensures
            match r {
                Some(ps) => self.model().detail matches Some(dv) && strs_view(ps@)
                    == dv.paragraphs,
                None => self.model().detail is None,
            },
    {
        q_detail_paragraphs(&self.doc)
    }

    /// The list-item texts of the descriptive block; empty where the block
    /// is absent.
    pub fn detail_list_items(&self) -> (r: Vec<String>)
        ensures
            match self.model().detail {
                Some(dv) => strs_view(r@) == dv.list_items,
                None => r@.len() == 0,
            },
    {
        q_detail_list_items(&self.doc)
    }

    /// The order form's four data attributes, where the form exists.
    pub fn order_form(&self) -> (r: Option<
        (Option<String>, Option<String>, Option<String>, Option<String>),
    >)
        ensures
            match r {
                Some(t) => self.model().order_form matches Some(f) && os_view(t.0) == f.action
                    && os_view(t.1) == f.key && os_view(t.2) == f.item_id && os_view(t.3)
                    == f.lang,
                None => self.model().order_form is None,
            },
    {
        q_order_form(&self.doc)
    }

    /// How many addition rows the page has.
    pub fn row_count(&self) -> (n: usize)
        ensures
            n == self.model().addition_rows.len(),
    {
        q_row_count(&self.doc)
    }

    /// One addition row's title-cell text.
    pub fn row_title(&self, i: usize) -> (r: Option<String>)
        requires
            i < self.model().addition_rows.len(),
        ensures
            os_view(r) == self.model().addition_rows[i as int].title,
    {
        q_row_title(&self.doc, i)
    }

    /// One addition row's size options.
    pub fn row_options(&self, i: usize) -> (r: Vec<(String, Option<String>)>)
        requires
            i < self.model().addition_rows.len(),
        ensures
            opts_view(r@) == self.model().addition_rows[i as int].options,
    {
        q_row_options(&self.doc, i)
    }

    /// The radio-label texts of the page.
    pub fn radio_labels(&self) -> (r: Vec<String>)
        ensures
            strs_view(r@) == self.model().radio_labels,
    {
        q_radio_labels(&self.doc)
    }
}

} // verus!
