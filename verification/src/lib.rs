//! A typed builder for gnuplot scripts.
//!
//! A [`graph::Graph`] describes one series: its style and data, title, axes and
//! range.  Drawing it to a [`plot_canvas::PlotCanvas`] lowers the description to
//! the lines of gnuplot's command language, and the canvas assembles the script
//! that the renderer reads.
pub mod enums;
pub mod graph;
pub mod number;
pub mod plot_canvas;
pub mod simpleplot_canvas;
pub mod text;
