//! Form handling: validators, error lists, widgets and formset bookkeeping.

pub mod validation;
pub mod widgets;
pub mod values;
pub mod fields;
pub mod form;
pub mod rendering;
pub mod formsets;
pub mod modelform;
