//! A terminal editor for comma-separated tables: the grid model, its
//! edit/undo state machine, the text codec and the chart projection.

pub mod app;
pub mod chart;
pub mod codec;
pub mod grid;
pub mod text;

pub use app::App;
pub use chart::{Chart, ChartError, project};
pub use codec::{decode, encode};
pub use grid::{Direction, GridEdit};
