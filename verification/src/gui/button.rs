//! A push button that reacts to pointer input and reports presses.
use crate::gui::event::{GuiActionEvent, GuiInputEvent};
use vstd::prelude::*;

verus! {

/// What a push button is doing.
#[derive(Copy, Clone, Eq, PartialEq, Structural, Debug)]
pub enum ButtonState {
    Normal,
    Hovered,
    Pressed,
    Disabled,
}

/// What a button asks of its surroundings after an input.
#[derive(Copy, Clone, Eq, PartialEq, Structural, Debug)]
pub enum ButtonReaction {
    /// The pointer moved onto the button: it wants to be the hovered node.
    Hover,
    /// The button was clicked: its press event should fire.
    Press,
    Nothing,
}

/// A push button: its state, whether the pointer is on it, and the event a press fires.
pub struct Button {
    pub state: ButtonState,
    pub hovered: bool,
    pub press_event: GuiActionEvent,
}

/// The state a button is in after it is enabled (`enabled`) or disabled: enabling a
/// disabled button makes it hovered or normal, as the pointer is on it or not; disabling
/// makes it disabled; otherwise it keeps its state.
pub open spec fn state_when_enabled(b: Button, enabled: bool) -> ButtonState {
    if enabled && b.state == ButtonState::Disabled {
        if b.hovered {
            ButtonState::Hovered
        } else {
            ButtonState::Normal
        }
    } else if !enabled {
        ButtonState::Disabled
    } else {
        b.state
    }
}

impl Button {
    pub fn new(press_event: GuiActionEvent) -> (r: Button)
        ensures
            r.state == ButtonState::Normal,
            !r.hovered,
            r.press_event == press_event,
    {
        Button { state: ButtonState::Normal, hovered: false, press_event }
    }

    fn transition_state(&mut self, from_state: ButtonState, to_state: ButtonState)
        ensures
            final(self).state == if old(self).state == from_state {
                to_state
            } else {
                old(self).state
            },
            final(self).hovered == old(self).hovered,
            final(self).press_event == old(self).press_event,
    {
        if self.state == from_state {
            self.state = to_state;
        }
    }

    pub fn enabled(&self) -> (r: bool)
        ensures
            r == (self.state != ButtonState::Disabled),
    {
        self.state != ButtonState::Disabled
    }

    /// Enabling a disabled button makes it hovered or normal, as the pointer is on it or
    /// not; disabling makes it disabled.
    pub fn set_enabled(&mut self, enabled: bool)
        ensures
            final(self).state == state_when_enabled(*old(self), enabled),
            final(self).hovered == old(self).hovered,
            final(self).press_event == old(self).press_event,
    {
        if enabled && self.state == ButtonState::Disabled {
            self.state = if self.hovered {
                ButtonState::Hovered
            } else {
                ButtonState::Normal
            };
        } else if !enabled && self.state != ButtonState::Disabled {
            self.state = ButtonState::Disabled;
        }
    }

    /// The pointer moved on or off the button.
    pub fn set_hovered(&mut self, hovered: bool)
        ensures
            final(self).hovered == hovered,
            final(self).state == if hovered {
                if old(self).state == ButtonState::Normal {
                    ButtonState::Hovered
                } else {
                    old(self).state
                }
            } else if old(self).state != ButtonState::Disabled {
                ButtonState::Normal
            } else {
                old(self).state
            },
            final(self).press_event == old(self).press_event,
    {
        self.hovered = hovered;
        if hovered {
            self.transition_state(ButtonState::Normal, ButtonState::Hovered);
        } else if self.state != ButtonState::Disabled {
            self.state = ButtonState::Normal;
        }
    }

    pub fn set_focused(&mut self, _focused: bool)
        ensures
            final(self).state == old(self).state,
            final(self).hovered == old(self).hovered,
            final(self).press_event == old(self).press_event,
    {
    }

    /// Reacts to pointer input: a move asks to become the hovered node; the primary button
    /// going down presses a hovered button; going up over a pressed button clicks it.
    pub fn handle_input(&mut self, input: GuiInputEvent) -> (r: ButtonReaction)
        ensures
            final(self).hovered == old(self).hovered,
            final(self).press_event == old(self).press_event,
            match input {
                GuiInputEvent::CursorMoved(_) => r == ButtonReaction::Hover && final(self).state
                    == old(self).state,
                GuiInputEvent::PrimaryButton(true) => r == ButtonReaction::Nothing
                    && final(self).state == if old(self).state == ButtonState::Hovered {
                    ButtonState::Pressed
                } else {
                    old(self).state
                },
                GuiInputEvent::PrimaryButton(false) => if old(self).state == ButtonState::Pressed {
                    r == ButtonReaction::Press && final(self).state == ButtonState::Hovered
                } else {
                    r == ButtonReaction::Nothing && final(self).state == old(self).state
                },
            },
    {
        match input {
            GuiInputEvent::CursorMoved(_) => ButtonReaction::Hover,
            GuiInputEvent::PrimaryButton(down) => {
                if down {
                    self.transition_state(ButtonState::Hovered, ButtonState::Pressed);
                    ButtonReaction::Nothing
                } else if self.state == ButtonState::Pressed {
                    self.state = ButtonState::Hovered;
                    ButtonReaction::Press
                } else {
                    ButtonReaction::Nothing
                }
            },
        }
    }
}

/// Enabling or disabling never loses a press: enabling a button that is not disabled
/// keeps its state (a pressed button stays pressed, so its release still clicks);
/// disabling always disables; enabling a disabled button makes it hovered when the pointer
/// is on it and normal otherwise.
pub proof fn lemma_enable_keeps_live_state(b: Button)
    ensures
        b.state != ButtonState::Disabled ==> state_when_enabled(b, true) == b.state,
        state_when_enabled(b, false) == ButtonState::Disabled,
        b.state == ButtonState::Disabled && b.hovered ==> state_when_enabled(b, true)
            == ButtonState::Hovered,
        b.state == ButtonState::Disabled && !b.hovered ==> state_when_enabled(b, true)
            == ButtonState::Normal,
        state_when_enabled(b, true) != ButtonState::Disabled,
{
}

} // verus!
