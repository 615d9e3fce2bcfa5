//! Addition extraction from the AJAX fragment.
//!
//! Each addition row yields a name from its title cell and one priced
//! variant per size option: the option text parsed as a quantity, the
//! `data-price` attribute (its dot normalized to a comma) parsed as a
//! decimal price.  A row's variants are stored sorted ascending by price,
//! ties keeping their document order.

use vstd::prelude::*;
use crate::amount::{
    byn_code, byn_string, parse_decimal_amount_spec, Amount, AmountView,
};
use crate::dish::{adds_view, avs_view, Addition, AdditionVariant, AdditionVariantView, AdditionView};
use crate::dom::{opts_view, os_view, OptView, Page, RowView};
use crate::error::{DishError, DishErrorView};
use crate::quantity::{parse_quantity_spec, Quantity};
use crate::text::to_chars;

verus! {

/// The page writes prices with a dot; the decimal grammar takes a comma.
pub open spec fn dot_to_comma(s: Seq<char>) -> Seq<char> {
    s.map_values(|c: char| if c == '.' { ',' } else { c })
}

/// The variant one size option yields: its text as the quantity, its
/// normalized `data-price` as the price; the first failure among quantity,
/// missing attribute and price wins.
pub open spec fn variant_of_option(o: OptView) -> Result<AdditionVariantView, DishErrorView> {
    match parse_quantity_spec(o.label) {
        Err(e) => Err(DishErrorView::QuantityParse(e)),
        Ok(q) => match o.price_attr {
            None => Err(DishErrorView::MarkupShape("option price"@)),
            Some(pa) => match parse_decimal_amount_spec(dot_to_comma(pa), byn_code()) {
                Err(e) => Err(DishErrorView::AmountParse(e)),
                Ok(a) => Ok(AdditionVariantView { quantity: q, price: a }),
            },
        },
    }
}

/// The variants a row's options yield, in document order; the first failing
/// option's error wins.
pub open spec fn variants_of_options(opts: Seq<OptView>) -> Result<
    Seq<AdditionVariantView>,
    DishErrorView,
>
    decreases opts.len(),
{
    if opts.len() == 0 {
        Ok(Seq::empty())
    } else {
        match variants_of_options(opts.drop_last()) {
            Err(e) => Err(e),
            Ok(pre) => match variant_of_option(opts.last()) {
                Err(e) => Err(e),
                Ok(v) => Ok(pre.push(v)),
            },
        }
    }
}

/// Stable insertion by price: the new variant goes before the first
/// strictly more expensive one, after any equally priced one.
pub open spec fn insert_by_price(
    x: AdditionVariantView,
    s: Seq<AdditionVariantView>,
) -> Seq<AdditionVariantView>
    decreases s.len(),
{
    if s.len() == 0 {
        seq![x]
    } else if x.price.minor_units < s[0].price.minor_units {
        seq![x] + s
    } else {
        seq![s[0]] + insert_by_price(x, s.drop_first())
    }
}

/// Stable sort ascending by price: variants inserted left to right.
pub open spec fn sort_by_price(s: Seq<AdditionVariantView>) -> Seq<AdditionVariantView>
    decreases s.len(),
{
    if s.len() == 0 {
        Seq::empty()
    } else {
        insert_by_price(s.last(), sort_by_price(s.drop_last()))
    }
}

/// Ascending by price.
pub open spec fn price_sorted(s: Seq<AdditionVariantView>) -> bool {
    forall|i: int, j: int|
        0 <= i < j < s.len() ==> s[i].price.minor_units <= s[j].price.minor_units
}

/// The addition one row yields: its title as the name, the placeholder id
/// (the site exposes none), and its variants sorted ascending by price.
pub open spec fn addition_of_row(r: RowView) -> Result<AdditionView, DishErrorView> {
    match r.title {
        None => Err(DishErrorView::MarkupShape("addition title"@)),
        Some(t) => match variants_of_options(r.options) {
            Err(e) => Err(e),
            Ok(vs) => Ok(AdditionView { id: "unknown"@, name: t, variants: sort_by_price(vs) }),
        },
    }
}

/// The additions the fragment's rows yield, in document order; the first
/// failing row's error wins.
pub open spec fn additions_of_rows(rows: Seq<RowView>) -> Result<Seq<AdditionView>, DishErrorView>
    decreases rows.len(),
{
    if rows.len() == 0 {
        Ok(Seq::empty())
    } else {
        match additions_of_rows(rows.drop_last()) {
            Err(e) => Err(e),
            Ok(pre) => match addition_of_row(rows.last()) {
                Err(e) => Err(e),
                Ok(a) => Ok(pre.push(a)),
            },
        }
    }
}

/// An error at the first failing option decides the whole row.
proof fn lemma_options_error(opts: Seq<OptView>, k: int)
    requires
        0 <= k < opts.len(),
        variants_of_options(opts.take(k)) is Ok,
        variant_of_option(opts[k]) is Err,
    ensures
        variants_of_options(opts) == Err::<Seq<AdditionVariantView>, DishErrorView>(
            variant_of_option(opts[k])->Err_0,
        ),
    decreases opts.len(),
{
    if opts.len() - 1 == k {
        assert(opts.drop_last() =~= opts.take(k));
        assert(opts.last() == opts[k]);
    } else {
        assert(opts.drop_last().take(k) =~= opts.take(k));
        assert(opts.drop_last()[k] == opts[k]);
        lemma_options_error(opts.drop_last(), k);
    }
}

/// An error at the first failing row decides the whole fragment.
proof fn lemma_rows_error(rows: Seq<RowView>, k: int)
    requires
        0 <= k < rows.len(),
        additions_of_rows(rows.take(k)) is Ok,
        addition_of_row(rows[k]) is Err,
    ensures
        additions_of_rows(rows) == Err::<Seq<AdditionView>, DishErrorView>(
            addition_of_row(rows[k])->Err_0,
        ),
    decreases rows.len(),
{
    if rows.len() - 1 == k {
        assert(rows.drop_last() =~= rows.take(k));
        assert(rows.last() == rows[k]);
    } else {
        assert(rows.drop_last().take(k) =~= rows.take(k));
        assert(rows.drop_last()[k] == rows[k]);
        lemma_rows_error(rows.drop_last(), k);
    }
}

/// `insert_by_price` places the new variant exactly at the first index
/// holding a strictly greater price.
proof fn lemma_insert_at(x: AdditionVariantView, s: Seq<AdditionVariantView>, j: int)
    requires
        0 <= j <= s.len(),
        forall|m: int| 0 <= m < j ==> s[m].price.minor_units <= x.price.minor_units,
        j < s.len() ==> x.price.minor_units < s[j].price.minor_units,
    ensures
        insert_by_price(x, s) == s.take(j) + seq![x] + s.skip(j),
    decreases j,
{
    if j == 0 {
        if s.len() == 0 {
            assert(insert_by_price(x, s) =~= s.take(0) + seq![x] + s.skip(0));
        } else {
            assert(insert_by_price(x, s) =~= s.take(0) + seq![x] + s.skip(0));
        }
    } else {
        let t = s.drop_first();
        assert forall|m: int| 0 <= m < j - 1 implies t[m].price.minor_units
            <= x.price.minor_units by {
            assert(t[m] == s[m + 1]);
        }
        lemma_insert_at(x, t, j - 1);
        assert(insert_by_price(x, s) == seq![s[0]] + (t.take(j - 1) + seq![x] + t.skip(j - 1)));
        assert(seq![s[0]] + (t.take(j - 1) + seq![x] + t.skip(j - 1)) =~= s.take(j) + seq![x]
            + s.skip(j));
    }
}

/// Inserting keeps the list sorted.
proof fn lemma_insert_sorted(x: AdditionVariantView, s: Seq<AdditionVariantView>)
    requires
        price_sorted(s),
    ensures
        price_sorted(insert_by_price(x, s)),
        insert_by_price(x, s).len() == s.len() + 1,
    decreases s.len(),
{
    if s.len() == 0 {
    } else if x.price.minor_units < s[0].price.minor_units {
        let out = seq![x] + s;
        assert forall|i: int, j: int| 0 <= i < j < out.len() implies out[i].price.minor_units
            <= out[j].price.minor_units by {
            if i > 0 {
                assert(out[i] == s[i - 1] && out[j] == s[j - 1]);
            } else {
                assert(out[j] == s[j - 1]);
                if j > 1 {
                    assert(s[0].price.minor_units <= s[j - 1].price.minor_units);
                }
            }
        }
    } else {
        let t = s.drop_first();
        assert forall|i: int, j: int| 0 <= i < j < t.len() implies t[i].price.minor_units
            <= t[j].price.minor_units by {
            assert(t[i] == s[i + 1] && t[j] == s[j + 1]);
        }
        lemma_insert_sorted(x, t);
        let rest = insert_by_price(x, t);
        let out = seq![s[0]] + rest;
        assert forall|i: int, j: int| 0 <= i < j < out.len() implies out[i].price.minor_units
            <= out[j].price.minor_units by {
            if i > 0 {
                assert(out[i] == rest[i - 1] && out[j] == rest[j - 1]);
            } else {
                assert(out[j] == rest[j - 1]);
                lemma_insert_members(x, t, j - 1);
            }
        }
    }
}

/// Inserting grows the list by one.
proof fn lemma_insert_len(x: AdditionVariantView, s: Seq<AdditionVariantView>)
    ensures
        insert_by_price(x, s).len() == s.len() + 1,
    decreases s.len(),
{
    if s.len() > 0 && !(x.price.minor_units < s[0].price.minor_units) {
        lemma_insert_len(x, s.drop_first());
    }
}

/// Every element of an insertion is the inserted one or one of the old
/// ones.
proof fn lemma_insert_members(x: AdditionVariantView, s: Seq<AdditionVariantView>, j: int)
    requires
        price_sorted(s),
        0 <= j < insert_by_price(x, s).len(),
    ensures
        insert_by_price(x, s).len() == s.len() + 1,
        insert_by_price(x, s)[j] == x || (exists|m: int|
            0 <= m < s.len() && insert_by_price(x, s)[j] == s[m]),
    decreases s.len(),
{
    lemma_insert_len(x, s);
    if s.len() == 0 {
        assert(insert_by_price(x, s)[0] == x);
    } else if x.price.minor_units < s[0].price.minor_units {
        if j > 0 {
            assert(insert_by_price(x, s)[j] == s[j - 1]);
        } else {
            assert(insert_by_price(x, s)[0] == x);
        }
    } else {
        let t = s.drop_first();
        assert forall|i: int, k: int| 0 <= i < k < t.len() implies t[i].price.minor_units
            <= t[k].price.minor_units by {
            assert(t[i] == s[i + 1] && t[k] == s[k + 1]);
        }
        if j == 0 {
            assert(insert_by_price(x, s)[0] == s[0]);
        } else {
            lemma_insert_members(x, t, j - 1);
            assert(insert_by_price(x, s)[j] == insert_by_price(x, t)[j - 1]);
            if insert_by_price(x, t)[j - 1] != x {
                let m = choose|m: int| 0 <= m < t.len() && insert_by_price(x, t)[j - 1] == t[m];
                assert(t[m] == s[m + 1]);
                assert(insert_by_price(x, s)[j] == s[m + 1]);
            }
        }
    }
}

/// The sort's result is ascending by price.
pub proof fn lemma_sort_sorted(s: Seq<AdditionVariantView>)
    ensures
        price_sorted(sort_by_price(s)),
        sort_by_price(s).len() == s.len(),
    decreases s.len(),
{
    if s.len() > 0 {
        lemma_sort_sorted(s.drop_last());
        lemma_insert_sorted(s.last(), sort_by_price(s.drop_last()));
    }
}

/// Inserting into a sorted list keeps, for every price, exactly the
/// variants of that price in their old order, the new one after them when it
/// carries that price.
proof fn lemma_insert_filter(x: AdditionVariantView, s: Seq<AdditionVariantView>, p: int)
    requires
        price_sorted(s),
    ensures
        insert_by_price(x, s).filter(|v: AdditionVariantView| v.price.minor_units == p) == if x.price.minor_units
            == p {
            s.filter(|v: AdditionVariantView| v.price.minor_units == p).push(x)
        } else {
            s.filter(|v: AdditionVariantView| v.price.minor_units == p)
        },
{
    let pred = |v: AdditionVariantView| v.price.minor_units == p;
    let j = choose|j: int|
        0 <= j <= s.len() && (forall|m: int|
            0 <= m < j ==> s[m].price.minor_units <= x.price.minor_units) && (j < s.len()
            ==> x.price.minor_units < s[j].price.minor_units);
    assert(exists|j: int|
        0 <= j <= s.len() && (forall|m: int|
            0 <= m < j ==> s[m].price.minor_units <= x.price.minor_units) && (j < s.len()
            ==> x.price.minor_units < s[j].price.minor_units)) by {
        lemma_first_greater(x, s);
    }
    lemma_insert_at(x, s, j);
    let a = s.take(j);
    let b = s.skip(j);
    Seq::filter_distributes_over_add(a + seq![x], b, pred);
    Seq::filter_distributes_over_add(a, seq![x], pred);
    assert((a + seq![x]) + b == insert_by_price(x, s));
    assert(a + b =~= s);
    Seq::filter_distributes_over_add(a, b, pred);
    reveal_with_fuel(Seq::<AdditionVariantView>::filter, 2);
    assert(seq![x].drop_last() =~= Seq::<AdditionVariantView>::empty());
    if x.price.minor_units == p {
        assert(seq![x].filter(pred) =~= seq![x]);
        assert forall|m: int| 0 <= m < b.len() implies !pred(b[m]) by {
            assert(b[m] == s[j + m]);
        }
        lemma_filter_none(b, pred);
        assert(a.filter(pred) + b.filter(pred) =~= a.filter(pred));
        assert(insert_by_price(x, s).filter(pred) =~= s.filter(pred).push(x));
    } else {
        assert(seq![x].filter(pred) =~= Seq::<AdditionVariantView>::empty());
        assert(insert_by_price(x, s).filter(pred) =~= s.filter(pred));
    }
}

/// There is a first position with a strictly greater price.
proof fn lemma_first_greater(x: AdditionVariantView, s: Seq<AdditionVariantView>)
    requires
        price_sorted(s),
    ensures
        exists|j: int|
            0 <= j <= s.len() && (forall|m: int|
                0 <= m < j ==> s[m].price.minor_units <= x.price.minor_units) && (j < s.len()
                ==> x.price.minor_units < s[j].price.minor_units),
    decreases s.len(),
{
    if s.len() == 0 {
        assert(0 <= 0 <= s.len() && (forall|m: int|
            0 <= m < 0 ==> s[m].price.minor_units <= x.price.minor_units) && (0 < s.len()
            ==> x.price.minor_units < s[0].price.minor_units));
    } else if x.price.minor_units < s[0].price.minor_units {
        assert(0 <= 0 <= s.len() && (forall|m: int|
            0 <= m < 0 ==> s[m].price.minor_units <= x.price.minor_units) && (0 < s.len()
            ==> x.price.minor_units < s[0].price.minor_units));
    } else {
        let t = s.drop_first();
        assert forall|i: int, k: int| 0 <= i < k < t.len() implies t[i].price.minor_units
            <= t[k].price.minor_units by {
            assert(t[i] == s[i + 1] && t[k] == s[k + 1]);
        }
        lemma_first_greater(x, t);
        let j0 = choose|j0: int|
            0 <= j0 <= t.len() && (forall|m: int|
                0 <= m < j0 ==> t[m].price.minor_units <= x.price.minor_units) && (j0 < t.len()
                ==> x.price.minor_units < t[j0].price.minor_units);
        assert forall|m: int| 0 <= m < j0 + 1 implies s[m].price.minor_units
            <= x.price.minor_units by {
            if m > 0 {
                assert(s[m] == t[m - 1]);
            }
        }
        assert(j0 + 1 < s.len() ==> x.price.minor_units < s[j0 + 1].price.minor_units);
    }
}

/// Nothing passes the filter where no element does.
proof fn lemma_filter_none(s: Seq<AdditionVariantView>, pred: spec_fn(AdditionVariantView) -> bool)
    requires
        forall|m: int| 0 <= m < s.len() ==> !pred(s[m]),
    ensures
        s.filter(pred) =~= Seq::<AdditionVariantView>::empty(),
    decreases s.len(),
{
    reveal(Seq::filter);
    if s.len() > 0 {
        assert forall|m: int| 0 <= m < s.drop_last().len() implies !pred(s.drop_last()[m]) by {
            assert(s.drop_last()[m] == s[m]);
        }
        lemma_filter_none(s.drop_last(), pred);
        assert(!pred(s.last()));
    }
}

/// The stable-sort law: sorting keeps, for every price, exactly the
/// variants of that price in their document order.
pub proof fn lemma_sort_stable(s: Seq<AdditionVariantView>, p: int)
    ensures
        sort_by_price(s).filter(|v: AdditionVariantView| v.price.minor_units == p) == s.filter(
            |v: AdditionVariantView| v.price.minor_units == p,
        ),
    decreases s.len(),
{
    let pred = |v: AdditionVariantView| v.price.minor_units == p;
    reveal_with_fuel(Seq::<AdditionVariantView>::filter, 2);
    if s.len() == 0 {
        assert(sort_by_price(s).filter(pred) =~= s.filter(pred));
    } else {
        lemma_sort_stable(s.drop_last(), p);
        lemma_sort_sorted(s.drop_last());
        lemma_insert_filter(s.last(), sort_by_price(s.drop_last()), p);
        if pred(s.last()) {
            assert(s.filter(pred) == s.drop_last().filter(pred).push(s.last()));
        } else {
            assert(s.filter(pred) == s.drop_last().filter(pred));
        }
    }
}

/// A successful extraction yields one addition per row.
proof fn lemma_additions_ok_len(rows: Seq<RowView>)
    requires
        additions_of_rows(rows) is Ok,
    ensures
        additions_of_rows(rows)->Ok_0.len() == rows.len(),
    decreases rows.len(),
{
    if rows.len() > 0 {
        lemma_additions_ok_len(rows.drop_last());
    }
}

/// Each addition of a successful extraction comes from its row.
proof fn lemma_additions_ok_index(rows: Seq<RowView>, k: int)
    requires
        additions_of_rows(rows) is Ok,
        0 <= k < rows.len(),
    ensures
        addition_of_row(rows[k]) is Ok,
        additions_of_rows(rows)->Ok_0[k] == addition_of_row(rows[k])->Ok_0,
    decreases rows.len(),
{
    if k == rows.len() - 1 {
        lemma_additions_ok_len(rows.drop_last());
        assert(rows.last() == rows[k]);
    } else {
        lemma_additions_ok_index(rows.drop_last(), k);
        assert(rows.drop_last()[k] == rows[k]);
        lemma_additions_ok_len(rows.drop_last());
    }
}

/// The stored-order invariant, at the extraction result: every addition the
/// fragment yields keeps its variants sorted ascending by price, and, for
/// every price, keeps the variants of that price in their document order.
pub proof fn lemma_extracted_additions_sorted(rows: Seq<RowView>, k: int, p: int)
    requires
        additions_of_rows(rows) is Ok,
        0 <= k < rows.len(),
    ensures
        price_sorted(additions_of_rows(rows)->Ok_0[k].variants),
        additions_of_rows(rows)->Ok_0[k].variants.filter(
            |v: AdditionVariantView| v.price.minor_units == p,
        ) == variants_of_options(rows[k].options)->Ok_0.filter(
            |v: AdditionVariantView| v.price.minor_units == p,
        ),
{
    lemma_additions_ok_index(rows, k);
    let vs = variants_of_options(rows[k].options)->Ok_0;
    lemma_sort_sorted(vs);
    lemma_sort_stable(vs, p);
}

/// Normalizes a price attribute in place: every dot becomes a comma.
fn normalize_dots(v: &mut Vec<char>)
    ensures
        final(v)@ == dot_to_comma(old(v)@),
{
    let n = v.len();
    let mut j: usize = 0;
    while j < n
        invariant
            0 <= j <= n,
            n == v@.len(),
            v@.len() == old(v)@.len(),
            forall|m: int| 0 <= m < j ==> v@[m] == dot_to_comma(old(v)@)[m],
            forall|m: int| j <= m < n ==> v@[m] == old(v)@[m],
        decreases n - j,
    {
        if v[j] == '.' {
            v.set(j, ',');
        }
        j = j + 1;
    }
    proof {
        assert(v@ =~= dot_to_comma(old(v)@));
    }
}

/// Parses one size option into a variant.
fn variant_of_option_exec(label: &String, price_attr: &Option<String>) -> (r: Result<
    AdditionVariant,
    DishError,
>)
    ensures
        match r {
            Ok(v) => variant_of_option(
                OptView { label: label@, price_attr: os_view(*price_attr) },
            ) == Ok::<AdditionVariantView, DishErrorView>(v@),
            Err(e) => variant_of_option(
                OptView { label: label@, price_attr: os_view(*price_attr) },
            ) == Err::<AdditionVariantView, DishErrorView>(e@),
        },
{
    let quantity = match Quantity::parse(label.as_str()) {
        Ok(q) => q,
        Err(e) => {
            return Err(DishError::QuantityParse(e));
        },
    };
    let pa = match price_attr {
        Some(pa) => pa,
        None => {
            return Err(DishError::MarkupShape("option price".to_owned()));
        },
    };
    let mut w = to_chars(pa.as_str());
    normalize_dots(&mut w);
    let byn = byn_string();
    let price = match Amount::from_decimal_chars(&w, byn.as_str()) {
        Ok(a) => a,
        Err(e) => {
            return Err(DishError::AmountParse(e));
        },
    };
    Ok(AdditionVariant { quantity, price })
}

/// The position a variant is inserted at: after every variant priced at or
/// under it, before the first strictly more expensive one.
fn insert_pos(out: &Vec<AdditionVariant>, x: &AdditionVariant) -> (j: usize)
    ensures
        j <= out@.len(),
        forall|k: int| 0 <= k < j ==> avs_view(out@)[k].price.minor_units <= x@.price.minor_units,
        j < out@.len() ==> x@.price.minor_units < avs_view(out@)[j as int].price.minor_units,
{
    let m = out.len();
    let mut j: usize = 0;
    while j < m && out[j].price.minor_units <= x.price.minor_units
        invariant
            0 <= j <= m,
            m == out@.len(),
            forall|k: int| 0 <= k < j ==> avs_view(out@)[k].price.minor_units <= x@.price.minor_units,
        decreases m - j,
    {
        proof {
            assert(avs_view(out@)[j as int] == out@[j as int]@);
        }
        j = j + 1;
    }
    proof {
        if j < m {
            assert(avs_view(out@)[j as int] == out@[j as int]@);
        }
    }
    j
}

/// Sorts a row's variants ascending by price, stably.
fn sort_variants(raw: Vec<AdditionVariant>) -> (r: Vec<AdditionVariant>)
    ensures
        avs_view(r@) == sort_by_price(avs_view(raw@)),
{
    let ghost orig = avs_view(raw@);
    let mut rest = raw;
    let total = rest.len();
    let mut out: Vec<AdditionVariant> = Vec::new();
    let ghost n = orig.len();
    let mut i: usize = 0;
    proof {
        assert(orig.take(0) =~= Seq::empty());
        assert(avs_view(out@) =~= sort_by_price(orig.take(0)));
        assert(avs_view(rest@) =~= orig.skip(0));
    }
    while rest.len() > 0
        invariant
            0 <= i <= total,
            total == n,
            n == orig.len(),
            avs_view(rest@) == orig.skip(i as int),
            rest@.len() == n - i,
            avs_view(out@) == sort_by_price(orig.take(i as int)),
        decreases rest@.len(),
    {
        let ghost old_rest = rest@;
        let x = rest.remove(0);
        proof {
            assert(x == old_rest[0]);
            assert(avs_view(old_rest)[0] == old_rest[0]@);
            assert(x@ == orig.skip(i as int)[0]);
            assert(x@ == orig[i as int]);
            assert forall|m2: int| 0 <= m2 < rest@.len() implies avs_view(rest@)[m2] == orig.skip(
                i as int + 1,
            )[m2] by {
                assert(rest@[m2] == old_rest[m2 + 1]);
                assert(avs_view(old_rest)[m2 + 1] == old_rest[m2 + 1]@);
                assert(avs_view(old_rest)[m2 + 1] == orig.skip(i as int)[m2 + 1]);
            }
            assert(avs_view(rest@) =~= orig.skip(i as int + 1));
        }
        let j = insert_pos(&out, &x);
        proof {
            lemma_insert_at(x@, avs_view(out@), j as int);
        }
        let ghost pre = avs_view(out@);
        let ghost old_out = out@;
        out.insert(j, x);
        proof {
            assert(out@ == old_out.insert(j as int, x));
            assert forall|m2: int| 0 <= m2 < out@.len() implies avs_view(out@)[m2] == (pre.take(
                j as int,
            ) + seq![x@] + pre.skip(j as int))[m2] by {
                assert(avs_view(out@)[m2] == out@[m2]@);
                if m2 < j {
                    assert(out@[m2] == old_out[m2]);
                    assert(avs_view(old_out)[m2] == old_out[m2]@);
                } else if m2 == j {
                    assert(out@[m2] == x);
                } else {
                    assert(out@[m2] == old_out[m2 - 1]);
                    assert(avs_view(old_out)[m2 - 1] == old_out[m2 - 1]@);
                }
            }
            assert(avs_view(out@) =~= pre.take(j as int) + seq![x@] + pre.skip(j as int));
            assert(orig.take(i + 1).drop_last() =~= orig.take(i as int));
            assert(orig.take(i + 1).last() == orig[i as int]);
            assert(avs_view(out@) == sort_by_price(orig.take(i + 1)));
        }
        i = i + 1;
    }
    proof {
        assert(orig.take(i as int) =~= orig);
    }
    out
}

/// Extracts the additions of the fragment, one per addition row, each with
/// its variants sorted ascending by price; no fragment yields no additions.
pub fn extract_additions(frag: Option<&Page>) -> (r: Result<Vec<Addition>, DishError>)
    ensures
        ({
            let rows = match frag {
                Some(p) => p.model().addition_rows,
                None => Seq::empty(),
            };
            match r {
                Ok(adds) => additions_of_rows(rows) == Ok::<Seq<AdditionView>, DishErrorView>(
                    adds_view(adds@),
                ),
                Err(e) => additions_of_rows(rows) == Err::<Seq<AdditionView>, DishErrorView>(e@),
            }
        }),
{
    let p = match frag {
        Some(p) => p,
        None => {
            let out: Vec<Addition> = Vec::new();
            proof {
                assert(adds_view(out@) =~= Seq::<AdditionView>::empty());
            }
            return Ok(out);
        },
    };
    let ghost rows = p.model().addition_rows;
    let n = p.row_count();
    let mut out: Vec<Addition> = Vec::new();
    let mut i: usize = 0;
    proof {
        assert(rows.take(0) =~= Seq::empty());
        assert(adds_view(out@) =~= Seq::<AdditionView>::empty());
    }
    while i < n
        invariant
            0 <= i <= n,
            n == rows.len(),
            frag == Some(p),
            rows == p.model().addition_rows,
            additions_of_rows(rows.take(i as int)) == Ok::<Seq<AdditionView>, DishErrorView>(
                adds_view(out@),
            ),
        decreases n - i,
    {
        let title = match p.row_title(i) {
            Some(t) => t,
            None => {
                let e = DishError::MarkupShape("addition title".to_owned());
                proof {
                    assert(rows[i as int].title is None);
                    assert(e@ == DishErrorView::MarkupShape("addition title"@));
                    assert(addition_of_row(rows[i as int]) == Err::<AdditionView, DishErrorView>(
                        e@,
                    ));
                    lemma_rows_error(rows, i as int);
                    assert(additions_of_rows(rows) == Err::<Seq<AdditionView>, DishErrorView>(e@));
                }
                return Err(e);
            },
        };
        let opts = p.row_options(i);
        let ghost ovs = opts_view(opts@);
        let m = opts.len();
        let mut raw: Vec<AdditionVariant> = Vec::new();
        let mut k: usize = 0;
        proof {
            assert(ovs.take(0) =~= Seq::empty());
            assert(avs_view(raw@) =~= Seq::<AdditionVariantView>::empty());
        }
        while k < m
            invariant
                0 <= k <= m,
                m == opts@.len(),
                ovs == opts_view(opts@),
                ovs == rows[i as int].options,
                0 <= i < rows.len(),
                frag == Some(p),
                rows == p.model().addition_rows,
                rows[i as int].title == Some(title@),
                additions_of_rows(rows.take(i as int)) is Ok,
                variants_of_options(ovs.take(k as int)) == Ok::<
                    Seq<AdditionVariantView>,
                    DishErrorView,
                >(avs_view(raw@)),
            decreases m - k,
        {
            proof {
                assert(ovs[k as int] == OptView {
                    label: opts@[k as int].0@,
                    price_attr: os_view(opts@[k as int].1),
                });
            }
            match variant_of_option_exec(&opts[k].0, &opts[k].1) {
                Ok(v) => {
                    let ghost old_raw = raw@;
                    raw.push(v);
                    proof {
                        assert(ovs.take(k + 1).drop_last() =~= ovs.take(k as int));
                        assert(ovs.take(k + 1).last() == ovs[k as int]);
                        assert forall|m2: int| 0 <= m2 < raw@.len() implies avs_view(raw@)[m2]
                            == avs_view(old_raw).push(v@)[m2] by {
                            assert(avs_view(raw@)[m2] == raw@[m2]@);
                            if m2 < old_raw.len() {
                                assert(raw@[m2] == old_raw[m2]);
                                assert(avs_view(old_raw)[m2] == old_raw[m2]@);
                            } else {
                                assert(raw@[m2] == v);
                            }
                        }
                        assert(avs_view(raw@) =~= avs_view(old_raw).push(v@));
                    }
                },
                Err(e) => {
                    proof {
                        lemma_options_error(ovs, k as int);
                        assert(variants_of_options(rows[i as int].options) == Err::<
                            Seq<AdditionVariantView>,
                            DishErrorView,
                        >(e@));
                        assert(addition_of_row(rows[i as int]) == Err::<
                            AdditionView,
                            DishErrorView,
                        >(e@));
                        lemma_rows_error(rows, i as int);
                        assert(additions_of_rows(rows) == Err::<Seq<AdditionView>, DishErrorView>(
                            e@,
                        ));
                    }
                    return Err(e);
                },
            }
            k = k + 1;
        }
        proof {
            assert(ovs.take(m as int) =~= ovs);
        }
        let variants = sort_variants(raw);
        let a = Addition { id: "unknown".to_owned(), name: title, variants };
        let ghost old_add = out@;
        out.push(a);
        proof {
            assert(rows.take(i + 1).drop_last() =~= rows.take(i as int));
            assert(rows.take(i + 1).last() == rows[i as int]);
            assert forall|m2: int| 0 <= m2 < out@.len() implies adds_view(out@)[m2] == adds_view(
                old_add,
            ).push(a@)[m2] by {
                assert(adds_view(out@)[m2] == out@[m2]@);
                if m2 < old_add.len() {
                    assert(out@[m2] == old_add[m2]);
                    assert(adds_view(old_add)[m2] == old_add[m2]@);
                } else {
                    assert(out@[m2] == a);
                }
            }
            assert(adds_view(out@) =~= adds_view(old_add).push(a@));
        }
        i = i + 1;
    }
    proof {
        assert(rows.take(n as int) =~= rows);
    }
    Ok(out)
}

} // verus!
