//! Error kinds of the extraction pipeline.
//!
//! A missing element or attribute where the page structure is assumed stable
//! is a markup-shape failure; unreadable quantity or price text is a
//! field-level parse failure.  Each is isolated to the dish being processed:
//! the menu-level error records which dish failed and how.  Transport
//! failures originate in the network layer around the library.

use vstd::prelude::*;
use crate::amount::AmountParseError;
use crate::quantity::{QuantityError, QuantityErrorView};

verus! {

/// Failure to place an order.
#[derive(Clone, Copy, PartialEq, Eq, Structural, Debug)]
pub enum OrderError {
    Failed,
}

/// Why one dish could not be extracted.
#[derive(Clone, PartialEq, Eq, Debug)]
pub enum DishError {
    /// An expected element or attribute is absent; carries which one.
    MarkupShape(String),
    /// The quantity text could not be read.
    QuantityParse(QuantityError),
    /// A price string could not be read.
    AmountParse(AmountParseError),
}

/// The mathematical image of a `DishError`.
pub enum DishErrorView {
    MarkupShape(Seq<char>),
    QuantityParse(QuantityErrorView),
    AmountParse(AmountParseError),
}

impl View for DishError {
    type V = DishErrorView;

    open spec fn view(&self) -> DishErrorView {
        match self {
            DishError::MarkupShape(s) => DishErrorView::MarkupShape(s@),
            DishError::QuantityParse(e) => DishErrorView::QuantityParse(e@),
            DishError::AmountParse(e) => DishErrorView::AmountParse(*e),
        }
    }
}

/// Why a menu fetch failed.
#[derive(Clone, PartialEq, Eq, Debug)]
pub enum MenuError {
    /// The fetch failed without a finer description.
    Failed,
    /// A network or protocol failure, described by the transport layer.
    Transport(String),
    /// One dish could not be extracted; carries its index among the cards,
    /// its id where that much was read, and the cause.
    Dish { index: usize, id: Option<String>, error: DishError },
}

/// The mathematical image of a `MenuError`.
pub enum MenuErrorView {
    Failed,
    Transport(Seq<char>),
    Dish { index: int, id: Option<Seq<char>>, error: DishErrorView },
}

impl View for MenuError {
    type V = MenuErrorView;

    open spec fn view(&self) -> MenuErrorView {
        match self {
            MenuError::Failed => MenuErrorView::Failed,
            MenuError::Transport(s) => MenuErrorView::Transport(s@),
            MenuError::Dish { index, id, error } => MenuErrorView::Dish {
                index: *index as int,
                id: crate::dom::os_view(*id),
                error: error@,
            },
        }
    }
}

} // verus!
