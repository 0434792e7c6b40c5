//! Layout engine and view-element generator for a scrollable hex-dump view.

pub mod bhiera;
pub mod data_provider;
pub mod dump;
pub mod element;
pub mod file_data_provider;
pub mod geometry;
pub mod hex;
pub mod layout;
pub mod scene;
pub mod selection;
pub mod view;

pub use bhiera::{Bhiera, Model};
pub use data_provider::DataProvider;
pub use element::Element;
pub use file_data_provider::FileDataProvider;
pub use geometry::Geometry;
pub use view::View;
