//! Timing diagrams of digital signals: signals are built from timestamped
//! levels, collected in a diagram, planned as wave paths and composed into a
//! vector drawing.

pub mod diagram;
pub mod render;
pub mod text;
pub mod timeline;
