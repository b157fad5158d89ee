//! Filtering, enrichment bookkeeping and reporting for preprocessing
//! OpenStreetMap data for routing.

pub mod model;
pub mod text;
pub mod bits;
pub mod strmap;
pub mod selection;
pub mod pattern;
pub mod predicate;
pub mod element_ops;
pub mod handler;
pub mod info;
pub mod buffer_pool;
pub mod filter;
pub mod collect;
pub mod skip_ele;
pub mod modify;
pub mod report;
pub mod plan;
pub mod osm_model;
pub mod elevation;
pub mod validate;
pub mod pmtiles;
pub mod area;
pub mod describe;
pub mod interpolate;
