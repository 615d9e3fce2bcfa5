//! Category extraction.
//!
//! The index page's filter buttons carry a `data-filter` attribute whose
//! first character is selector syntax; the rest is the category id, and the
//! button's first child text is the category name.  Buttons whose derived id
//! is empty, or which lack the attribute or the text, yield no entry.  A
//! repeated id keeps its first position and takes the latest name, as a map
//! built from the buttons would.

use vstd::prelude::*;
use vstd::string::StrSliceExecFns;
use crate::dom::{ButtonView, Page};

verus! {

/// One catalog category.
#[derive(Clone, PartialEq, Eq, Debug)]
pub struct Category {
    pub id: String,
    pub name: String,
}

/// The mathematical image of a `Category`.
pub struct CategoryView {
    pub id: Seq<char>,
    pub name: Seq<char>,
}

impl View for Category {
    type V = CategoryView;

    open spec fn view(&self) -> CategoryView {
        CategoryView { id: self.id@, name: self.name@ }
    }
}

/// The views of a category list.
pub open spec fn cats_view(v: Seq<Category>) -> Seq<CategoryView> {
    v.map_values(|c: Category| c@)
}

/// The entry one filter button contributes: its `data-filter` value with the
/// first character stripped as the id, its first-child text as the name;
/// nothing where the attribute or text is missing or the id comes out empty.
pub open spec fn button_entry(b: ButtonView) -> Option<CategoryView> {
    match (b.filter, b.label) {
        (Some(f), Some(l)) => if f.len() >= 2 {
            Some(CategoryView { id: f.skip(1), name: l })
        } else {
            None
        },
        _ => None,
    }
}

/// The least index holding `id`, if any.
pub open spec fn find_id(s: Seq<CategoryView>, id: Seq<char>) -> Option<int>
    decreases s.len(),
{
    if s.len() == 0 {
        None
    } else if s[0].id == id {
        Some(0)
    } else {
        match find_id(s.drop_first(), id) {
            Some(j) => Some(j + 1),
            None => None,
        }
    }
}

/// Insert-or-replace: a present id keeps its position and takes the new
/// name; a new id goes to the end.
pub open spec fn upsert(s: Seq<CategoryView>, e: CategoryView) -> Seq<CategoryView> {
    match find_id(s, e.id) {
        Some(k) => s.update(k, e),
        None => s.push(e),
    }
}

/// The category list the filter buttons yield, in first-appearance order.
pub open spec fn categories_of(buttons: Seq<ButtonView>) -> Seq<CategoryView>
    decreases buttons.len(),
{
    if buttons.len() == 0 {
        Seq::empty()
    } else {
        let pre = categories_of(buttons.drop_last());
        match button_entry(buttons.last()) {
            Some(e) => upsert(pre, e),
            None => pre,
        }
    }
}

/// The name a category list resolves an id to.
pub open spec fn lookup_spec(s: Seq<CategoryView>, id: Seq<char>) -> Option<Seq<char>> {
    match find_id(s, id) {
        Some(k) => Some(s[k].name),
        None => None,
    }
}

/// No two entries of a category list share an id.
pub open spec fn unique_ids(s: Seq<CategoryView>) -> bool {
    forall|k1: int, k2: int| 0 <= k1 < k2 < s.len() ==> s[k1].id != s[k2].id
}

proof fn lemma_find_id_some(s: Seq<CategoryView>, id: Seq<char>)
    ensures
        match find_id(s, id) {
            Some(k) => 0 <= k < s.len() && s[k].id == id && forall|m: int|
                0 <= m < k ==> s[m].id != id,
            None => forall|m: int| 0 <= m < s.len() ==> s[m].id != id,
        },
    decreases s.len(),
{
    if s.len() > 0 && s[0].id != id {
        lemma_find_id_some(s.drop_first(), id);
        assert forall|m: int| 1 <= m < s.len() implies s[m].id == s.drop_first()[m - 1].id by {}
    }
}

proof fn lemma_upsert_unique(s: Seq<CategoryView>, e: CategoryView)
    requires
        unique_ids(s),
    ensures
        unique_ids(upsert(s, e)),
{
    lemma_find_id_some(s, e.id);
    match find_id(s, e.id) {
        Some(k) => {
            let t = s.update(k, e);
            assert forall|k1: int, k2: int| 0 <= k1 < k2 < t.len() implies t[k1].id != t[k2].id by {
                if k1 != k && k2 != k {
                    assert(t[k1].id == s[k1].id && t[k2].id == s[k2].id);
                }
            }
        },
        None => {},
    }
}

/// The category list the buttons yield never repeats an id.
pub proof fn lemma_categories_unique(buttons: Seq<ButtonView>)
    ensures
        unique_ids(categories_of(buttons)),
    decreases buttons.len(),
{
    if buttons.len() > 0 {
        lemma_categories_unique(buttons.drop_last());
        match button_entry(buttons.last()) {
            Some(e) => {
                lemma_upsert_unique(categories_of(buttons.drop_last()), e);
            },
            None => {},
        }
    }
}

/// The least index of `id` in the list, searched left to right.
fn find_id_exec(cats: &Vec<Category>, id: &String) -> (r: Option<usize>)
    ensures
        match r {
            Some(k) => find_id(cats_view(cats@), id@) == Some(k as int) && k < cats@.len(),
            None => find_id(cats_view(cats@), id@) is None,
        },
{
    let n = cats.len();
    let mut i: usize = 0;
    while i < n
        invariant
            0 <= i <= n,
            n == cats@.len(),
            forall|m: int| 0 <= m < i ==> cats_view(cats@)[m].id != id@,
        decreases n - i,
    {
        if cats[i].id.eq(id) {
            proof {
                let s = cats_view(cats@);
                assert(s[i as int].id == cats@[i as int].id@);
                lemma_find_id_some(s, id@);
                match find_id(s, id@) {
                    Some(k0) => {
                        if k0 < i as int {
                            assert(s[k0].id != id@);
                        }
                        if k0 > i as int {
                            assert(s[i as int].id != id@);
                        }
                    },
                    None => {
                        assert(s[i as int].id != id@);
                    },
                }
            }
            return Some(i);
        }
        i = i + 1;
    }
    proof {
        lemma_find_id_some(cats_view(cats@), id@);
    }
    None
}

/// Extracts the category map of the index page, in first-appearance order,
/// later buttons overriding the names of repeated ids.
pub fn extract_categories(index: &Page) -> (r: Vec<Category>)
    ensures
        cats_view(r@) == categories_of(index.model().buttons),
        unique_ids(cats_view(r@)),
{
    let ghost buttons = index.model().buttons;
    let n = index.button_count();
    let mut out: Vec<Category> = Vec::new();
    let mut i: usize = 0;
    while i < n
        invariant
            0 <= i <= n,
            n == buttons.len(),
            buttons == index.model().buttons,
            cats_view(out@) =~= categories_of(buttons.take(i as int)),
        decreases n - i,
    {
        let (filter, label) = index.button(i);
        proof {
            assert(buttons.take(i as int + 1).drop_last() =~= buttons.take(i as int));
            assert(buttons.take(i as int + 1).last() == buttons[i as int]);
        }
        match (filter, label) {
            (Some(f), Some(l)) => {
                let flen = f.as_str().unicode_len();
                if flen >= 2 {
                    let id: String = f.as_str().substring_char(1, flen).to_owned();
                    proof {
                        assert(id@ =~= f@.skip(1));
                    }
                    match find_id_exec(&out, &id) {
                        Some(k) => {
                            let e = Category { id, name: l };
                            out.set(k, e);
                            proof {
                                assert(cats_view(out@) =~= categories_of(
                                    buttons.take(i as int),
                                ).update(k as int, e@));
                            }
                        },
                        None => {
                            let e = Category { id, name: l };
                            out.push(e);
                            proof {
                                assert(cats_view(out@) =~= categories_of(buttons.take(i as int)).push(
                                    e@,
                                ));
                            }
                        },
                    }
                }
            },
            _ => {},
        }
        i = i + 1;
    }
    proof {
        assert(buttons.take(n as int) =~= buttons);
        lemma_categories_unique(buttons);
    }
    out
}

/// Resolves a raw category id against the extracted list.
pub fn category_name(cats: &Vec<Category>, id: &String) -> (r: Option<String>)
    ensures
        match r {
            Some(name) => lookup_spec(cats_view(cats@), id@) == Some(name@),
            None => lookup_spec(cats_view(cats@), id@) is None,
        },
{
    match find_id_exec(cats, id) {
        Some(k) => Some(cats[k].name.clone()),
        None => None,
    }
}

} // verus!
