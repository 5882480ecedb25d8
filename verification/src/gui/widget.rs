//! Widgets built from GUI nodes: images, panels that stay open only while shown, and the
//! state machine behind buttons.
use crate::gui::{edit_node, node_at, Gui, GuiModel, GuiNode, GuiNodeId, NodeFlags, NodeLayout};
use vstd::prelude::*;

verus! {

/// Anything that owns a GUI node.
pub trait WidgetNode {
    fn node(&self) -> GuiNodeId;
}

impl WidgetNode for GuiNodeId {
    fn node(&self) -> (r: GuiNodeId)
        ensures
            r == *self,
    {
        *self
    }
}

/// What a button is doing. A button starts disabled and is enabled each frame that its
/// owner interacts with it.
#[derive(Copy, Clone, PartialEq, Eq, Structural, Debug)]
pub enum ButtonState {
    Disabled,
    Normal,
    Hovered,
    Pressed,
}

impl Default for ButtonState {
    fn default() -> (r: ButtonState)
        ensures
            r == ButtonState::Disabled,
    {
        ButtonState::Disabled
    }
}

impl ButtonState {
    /// The pointer is on the button.
    pub fn is_active(self) -> (r: bool)
        ensures
            r == (self == ButtonState::Hovered || self == ButtonState::Pressed),
    {
        self == ButtonState::Hovered || self == ButtonState::Pressed
    }
}

/// The state a button moves to in a frame.
pub open spec fn next_button_state(interactable: bool, pointer_over_button: bool, pressed: bool) -> ButtonState {
    if interactable {
        if pointer_over_button {
            if pressed {
                ButtonState::Pressed
            } else {
                ButtonState::Hovered
            }
        } else {
            ButtonState::Normal
        }
    } else {
        ButtonState::Disabled
    }
}

/// The per-frame state of a button: the node it watches, its state, whether its owner
/// interacted with it this frame, and whether it was released over the button in the
/// last frame.
#[derive(Copy, Clone, PartialEq, Eq, Structural, Debug)]
pub struct ButtonBehavior {
    pub node: GuiNodeId,
    pub state: ButtonState,
    pub interactable: bool,
    pub just_released: bool,
}

impl ButtonBehavior {
    pub fn new(node: GuiNodeId) -> (r: ButtonBehavior)
        ensures
            r.node == node,
            r.state == ButtonState::Disabled,
            !r.interactable,
            !r.just_released,
    {
        ButtonBehavior { node, state: ButtonState::Disabled, interactable: false, just_released: false }
    }

    /// Called by the owner each frame it wants the button enabled; tells whether the
    /// button was clicked in the last update.
    pub fn interact(&mut self) -> (clicked: bool)
        ensures
            clicked == old(self).just_released,
            *final(self) == (ButtonBehavior { interactable: true, ..*old(self) }),
    {
        self.interactable = true;
        self.just_released
    }

    pub fn state(&self) -> (r: ButtonState)
        ensures
            r == self.state,
    {
        self.state
    }

    /// One frame of the button. `pointer_over` is the node under the pointer and `pressed`
    /// the primary button. Returns the new state when it changed, so the caller can redraw.
    /// A click is a press released while still over the button.
    pub fn update(&mut self, pointer_over: Option<GuiNodeId>, pressed: bool) -> (r: Option<
        ButtonState,
    >)
        ensures
            (*final(self), r) == button_step(*old(self), pointer_over, pressed),
    {
        let over = match pointer_over {
            Some(n) => n == self.node,
            None => false,
        };
        let new_state = if self.interactable {
            if over {
                if pressed {
                    ButtonState::Pressed
                } else {
                    ButtonState::Hovered
                }
            } else {
                ButtonState::Normal
            }
        } else {
            ButtonState::Disabled
        };
        self.interactable = false;
        if new_state != self.state {
            self.just_released = self.state == ButtonState::Pressed && new_state
                == ButtonState::Hovered;
            self.state = new_state;
            Some(new_state)
        } else {
            self.just_released = false;
            None
        }
    }
}

/// The behavior after one frame, and the new state if it changed.
pub open spec fn button_step(b: ButtonBehavior, pointer_over: Option<GuiNodeId>, pressed: bool) -> (
    ButtonBehavior,
    Option<ButtonState>,
) {
    let next = next_button_state(b.interactable, pointer_over == Some(b.node), pressed);
    (
        ButtonBehavior {
            node: b.node,
            state: next,
            interactable: false,
            just_released: b.state == ButtonState::Pressed && next == ButtonState::Hovered,
        },
        if next != b.state {
            Some(next)
        } else {
            None
        },
    )
}

/// A click is reported to exactly one `interact`: a button pressed while its owner
/// interacts, then released over it, reports the click to the next `interact`; the frame
/// after that (pointer still on it) no longer reports it.
pub proof fn lemma_click_reported_once(b: ButtonBehavior)
    requires
        b.state == ButtonState::Pressed,
        b.interactable,
    ensures
        ({
            let (released, change) = button_step(b, Some(b.node), false);
            let after_interact = ButtonBehavior { interactable: true, ..released };
            let (settled, change2) = button_step(after_interact, Some(b.node), false);
            &&& change == Some(ButtonState::Hovered)
            &&& released.just_released
            &&& change2 is None
            &&& !settled.just_released
            &&& settled.state == ButtonState::Hovered
        }),
{
}

/// A button whose owner does not interact with it in a frame is disabled at the end of
/// that frame, whatever the pointer does.
pub proof fn lemma_button_disabled_without_interaction(
    b: ButtonBehavior,
    pointer_over: Option<GuiNodeId>,
    pressed: bool,
)
    requires
        !b.interactable,
    ensures
        button_step(b, pointer_over, pressed).0.state == ButtonState::Disabled,
        !button_step(b, pointer_over, pressed).0.just_released,
{
}

/// A frame reports a click exactly when it takes the button from pressed to hovered: a
/// button that was normal, hovered or disabled never reports one, whatever the pointer
/// does; a pressed, enabled button whose pointer is released while still over it always
/// does.
pub proof fn lemma_click_only_from_pressed(
    b: ButtonBehavior,
    pointer_over: Option<GuiNodeId>,
    pressed: bool,
)
    ensures
        button_step(b, pointer_over, pressed).0.just_released <==> (b.state == ButtonState::Pressed
            && button_step(b, pointer_over, pressed).0.state == ButtonState::Hovered),
        b.state != ButtonState::Pressed ==> !button_step(b, pointer_over, pressed).0.just_released,
        b.state == ButtonState::Pressed && b.interactable && pointer_over == Some(b.node) && !pressed
            ==> button_step(b, pointer_over, pressed).0.just_released,
{
}

/// An image: a node that draws something.
#[derive(Copy, Clone, PartialEq, Eq, Structural, Debug)]
pub struct Image(pub GuiNodeId);

impl Image {
    /// Adds an image node under `parent`.
    pub fn new<D>(gui: &mut Gui<D>, parent: GuiNodeId, layout: NodeLayout, draw: D) -> (r: Image)
        requires
            old(gui)@.wf(),
            old(gui)@.nodes.len() + 1 < usize::MAX,
        ensures
            final(gui)@.wf(),
            r.0.0 == old(gui)@.nodes.len(),
            final(gui)@.nodes.len() == old(gui)@.nodes.len() + 1,
            crate::gui::is_fresh_node(node_at(final(gui)@, r.0), layout, draw),
    {
        let node = gui.add_child(parent, GuiNode::new(layout, draw));
        Image(node)
    }

    /// Replaces what the image draws.
    pub fn set_draw<D>(&self, gui: &mut Gui<D>, draw: D)
        requires
            old(gui)@.wf(),
        ensures
            final(gui)@.wf(),
            final(gui)@ == edit_node(old(gui)@, self.0, (GuiNode { draw, ..node_at(old(gui)@, self.0) })),
    {
        gui.set_draw(self.0, draw);
    }
}

impl WidgetNode for Image {
    fn node(&self) -> (r: GuiNodeId)
        ensures
            r == self.0,
    {
        self.0
    }
}

/// A panel: a pointer-opaque node that stays shown only for frames in which its owner
/// calls `show`.
#[derive(Copy, Clone, PartialEq, Eq, Structural, Debug)]
pub struct Panel(pub GuiNodeId);

/// `gui` with the visible flag of the live node `id` set to `visible`.
pub open spec fn with_visible_flag<D>(g: GuiModel<D>, id: GuiNodeId, visible: bool) -> GuiModel<D> {
    edit_node(
        g,
        id,
        GuiNode { flags: NodeFlags { visible, ..node_at(g, id).flags }, ..node_at(g, id) },
    )
}

impl Panel {
    /// Adds a panel node under `parent`: visible and pointer-opaque.
    pub fn new<D>(gui: &mut Gui<D>, parent: GuiNodeId, layout: NodeLayout, draw: D) -> (r: Panel)
        requires
            old(gui)@.wf(),
            old(gui)@.nodes.len() + 1 < usize::MAX,
        ensures
            final(gui)@.wf(),
            r.0.0 == old(gui)@.nodes.len(),
            final(gui)@.nodes.len() == old(gui)@.nodes.len() + 1,
            node_at(final(gui)@, r.0).flags == (NodeFlags { visible: true, pointer_opaque: true }),
            node_at(final(gui)@, r.0).layout == layout,
            node_at(final(gui)@, r.0).draw == draw,
    {
        let mut node = GuiNode::new(layout, draw);
        node.flags = NodeFlags { visible: true, pointer_opaque: true };
        let id = gui.add_child(parent, node);
        Panel(id)
    }

    /// Keeps the panel shown for the next layout.
    pub fn show<D>(&self, gui: &mut Gui<D>)
        requires
            old(gui)@.wf(),
        ensures
            final(gui)@.wf(),
            final(gui)@ == with_visible_flag(old(gui)@, self.0, true),
    {
        gui.set_visible(self.0, true);
    }

    /// Replaces what the panel draws behind its children.
    pub fn set_background<D>(&self, gui: &mut Gui<D>, draw: D)
        requires
            old(gui)@.wf(),
        ensures
            final(gui)@.wf(),
            final(gui)@ == edit_node(old(gui)@, self.0, (GuiNode { draw, ..node_at(old(gui)@, self.0) })),
    {
        gui.set_draw(self.0, draw);
    }
}

impl WidgetNode for Panel {
    fn node(&self) -> (r: GuiNodeId)
        ensures
            r == self.0,
    {
        self.0
    }
}

/// Hides its panel after every frame, so the panel shows only while `show` is called.
#[derive(Copy, Clone, PartialEq, Eq, Structural, Debug)]
pub struct PanelBehavior(pub GuiNodeId);

impl PanelBehavior {
    pub fn update<D>(&self, gui: &mut Gui<D>)
        requires
            old(gui)@.wf(),
        ensures
            final(gui)@.wf(),
            final(gui)@ == with_visible_flag(old(gui)@, self.0, false),
    {
        gui.set_visible(self.0, false);
    }
}

} // verus!
