//! Headless authoring and rendering of drawio diagrams.

pub mod text;
pub mod decimal;
pub mod overflow;
pub mod style;
pub mod author;
pub mod shapes;
pub mod aws;
pub mod azure;
pub mod gcp;
pub mod k8s;
pub mod client;
pub mod generic;
pub mod catalogue;
pub mod xml;
pub mod error;
pub mod inflate;
pub mod model;
pub mod stencil_svg;
pub mod stencil;
pub mod render;
pub mod kinds;
pub mod authoring;
pub mod listing;
pub mod fonts;
pub mod read_back;
