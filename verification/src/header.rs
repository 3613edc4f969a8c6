//! The header with the buttons that lead to the pages.

use vstd::prelude::*;
use crate::pages::Page;

verus! {

/// What the user can ask of the header.
#[derive(Debug, Clone, Copy, PartialEq, Eq, Structural)]
pub enum HeaderMessage {
    SwitchPage(Page),
}

/// How a button of the header is drawn.
#[derive(Debug, Clone, Copy, PartialEq, Eq, Structural)]
pub enum Button {
    ActiveButton,
    InactiveButton,
}

/// The button that leads to the page shown is drawn as active.
pub fn get_button_style(active_page: &Page, current_module: &Page) -> (style: Button)
    ensures
        style == (if active_page == current_module {
            Button::ActiveButton
        } else {
            Button::InactiveButton
        }),
{
    if *active_page == *current_module {
        Button::ActiveButton
    } else {
        Button::InactiveButton
    }
}

} // verus!
