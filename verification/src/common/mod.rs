//! Building blocks shared by the registry: keys, small collections, text.
pub mod constant;
pub mod keyed;
pub mod model;
pub mod pairs;
pub mod privilege;
pub mod string_map;
pub mod string_utils;
pub mod text;
pub mod vec_map;
pub mod vec_set;
