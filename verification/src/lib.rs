//! Extraction and normalization pipeline for a food-delivery catalog.
//!
//! The library turns loosely structured catalog markup and free-text fields
//! (quantities, nutrition facts, addition options) into a strongly typed menu
//! model.  Markup traversal is delegated to an HTML library behind a small
//! trusted boundary; every rule that interprets the extracted text is
//! verified.

pub mod text;
pub mod quantity;
pub mod amount;
pub mod nutrition;
pub mod dom;
pub mod category;
pub mod dish;
pub mod error;
pub mod features;
pub mod additions;
pub mod detail;
pub mod fragment;
pub mod order;
pub mod extract;

pub use amount::{Amount, AmountParseError};
pub use category::Category;
pub use dish::{Addition, AdditionVariant, Dish, DishFeature, DishFeatures, DishType, DishVariant};
pub use dom::Page;
pub use error::{DishError, MenuError, OrderError};
pub use extract::Menu;
pub use fragment::FormRequest;
pub use nutrition::NutritionFacts;
pub use order::{Address, DeliveryTime, Identity, Order, OrderEntry};
pub use quantity::{Decimal, Quantity, QuantityError};
