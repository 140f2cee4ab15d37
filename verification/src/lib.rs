//! Verified core of the CartridgeOS launcher: input model, list/grid/text
//! widgets, dialogs, launcher data and small formatting helpers.

pub mod input;
pub mod list_view;
pub mod grid_view;
pub mod confirm_dialog;
pub mod clock;
pub mod text_input;
pub mod detail_view;
pub mod strs;
pub mod data;
pub mod text;
pub mod sim;
pub mod fmt;
pub mod calendar;
pub mod text_hash;
pub mod sysinfo;
pub mod overlay;
pub mod boot;
pub mod theme;
pub mod widgets;
pub mod neo;
pub mod screens;
pub mod launcher;
pub mod games;
pub mod paths;
pub mod wifi;
pub mod app;
pub mod device;
pub mod wrap;
pub mod perf;
pub mod table;
pub mod frame_loop;
