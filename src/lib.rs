//! A single-line text-entry widget for a node-graph editor: the editable
//! value, the widget's focus and dirty state, the input reducer that feeds
//! typed characters into focused widgets, and the publisher that pushes
//! changed values to the text display and the owning graph node.

pub mod value;
pub mod widget;
pub mod scene;
