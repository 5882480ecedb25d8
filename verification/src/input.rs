//! Key bindings: how keyboard events change a binding, and the direction that a pair or
//! quadruple of keys points in.
use vstd::prelude::*;

verus! {

/// A keyboard event: the virtual key it is about (if the platform knows it) and whether
/// the key went down.
#[derive(Copy, Clone, PartialEq, Eq, Structural, Debug)]
pub struct KeyEvent {
    pub key: Option<u32>,
    pub pressed: bool,
}

/// One key, and whether it is held.
#[derive(Copy, Clone, PartialEq, Eq, Structural, Debug)]
pub struct KeyBinding {
    pub key: u32,
    pub pressed: bool,
}

/// The binding after `event`, and whether the event was about its key.
pub open spec fn key_step(b: KeyBinding, event: KeyEvent) -> (KeyBinding, bool) {
    if event.key == Some(b.key) {
        (KeyBinding { pressed: event.pressed, ..b }, true)
    } else {
        (b, false)
    }
}

impl KeyBinding {
    pub fn new(key: u32) -> (r: KeyBinding)
        ensures
            r.key == key,
            !r.pressed,
    {
        KeyBinding { key, pressed: false }
    }

    /// Follows `event` if it is about this key; returns whether it was.
    pub fn event(&mut self, event: KeyEvent) -> (r: bool)
        ensures
            (*final(self), r) == key_step(*old(self), event),
    {
        match event.key {
            Some(k) => {
                if k == self.key {
                    self.pressed = event.pressed;
                    true
                } else {
                    false
                }
            },
            None => false,
        }
    }

    pub fn state(&self) -> (r: bool)
        ensures
            r == self.pressed,
    {
        self.pressed
    }
}

/// +1 for the first key alone, -1 for the second alone, 0 for both or neither.
pub open spec fn axis_value(positive: bool, negative: bool) -> i8 {
    ((if positive {
        1int
    } else {
        0
    }) - (if negative {
        1int
    } else {
        0
    })) as i8
}

/// Two keys that push one axis up and down.
#[derive(Copy, Clone, PartialEq, Eq, Structural, Debug)]
pub struct KeyAxis1Binding {
    pub up: KeyBinding,
    pub down: KeyBinding,
}

impl KeyAxis1Binding {
    pub fn new(up: u32, down: u32) -> (r: KeyAxis1Binding)
        ensures
            r.up == (KeyBinding { key: up, pressed: false }),
            r.down == (KeyBinding { key: down, pressed: false }),
    {
        KeyAxis1Binding { up: KeyBinding::new(up), down: KeyBinding::new(down) }
    }

    /// Passes `event` to both keys; returns whether either key was concerned.
    pub fn event(&mut self, event: KeyEvent) -> (r: bool)
        ensures
            final(self).up == key_step(old(self).up, event).0,
            final(self).down == key_step(old(self).down, event).0,
            r == (key_step(old(self).up, event).1 || key_step(old(self).down, event).1),
    {
        let mut changed = false;
        changed = self.up.event(event) || changed;
        changed = self.down.event(event) || changed;
        changed
    }

    /// The axis direction: up is +1, down is -1.
    pub fn state(&self) -> (r: i8)
        ensures
            r == axis_value(self.up.pressed, self.down.pressed),
    {
        let mut x: i8 = 0;
        if self.up.pressed {
            x = x + 1;
        }
        if self.down.pressed {
            x = x - 1;
        }
        x
    }
}

/// Four keys that push a two-dimensional axis.
#[derive(Copy, Clone, PartialEq, Eq, Structural, Debug)]
pub struct KeyAxis2Binding {
    pub up: KeyBinding,
    pub down: KeyBinding,
    pub left: KeyBinding,
    pub right: KeyBinding,
}

impl KeyAxis2Binding {
    pub fn new(up: u32, down: u32, left: u32, right: u32) -> (r: KeyAxis2Binding)
        ensures
            r.up == (KeyBinding { key: up, pressed: false }),
            r.down == (KeyBinding { key: down, pressed: false }),
            r.left == (KeyBinding { key: left, pressed: false }),
            r.right == (KeyBinding { key: right, pressed: false }),
    {
        KeyAxis2Binding {
            up: KeyBinding::new(up),
            down: KeyBinding::new(down),
            left: KeyBinding::new(left),
            right: KeyBinding::new(right),
        }
    }

    /// Passes `event` to all four keys; returns whether any key was concerned.
    pub fn event(&mut self, event: KeyEvent) -> (r: bool)
        ensures
            final(self).up == key_step(old(self).up, event).0,
            final(self).down == key_step(old(self).down, event).0,
            final(self).left == key_step(old(self).left, event).0,
            final(self).right == key_step(old(self).right, event).0,
            r == (key_step(old(self).up, event).1 || key_step(old(self).down, event).1
                || key_step(old(self).left, event).1 || key_step(old(self).right, event).1),
    {
        let mut changed = false;
        changed = self.up.event(event) || changed;
        changed = self.down.event(event) || changed;
        changed = self.left.event(event) || changed;
        changed = self.right.event(event) || changed;
        changed
    }

    /// The direction `(x, y)`: right and up are positive.
    pub fn state(&self) -> (r: (i8, i8))
        ensures
            r.0 == axis_value(self.right.pressed, self.left.pressed),
            r.1 == axis_value(self.up.pressed, self.down.pressed),
    {
        let mut x: i8 = 0;
        let mut y: i8 = 0;
        if self.up.pressed {
            y = y + 1;
        }
        if self.down.pressed {
            y = y - 1;
        }
        if self.left.pressed {
            x = x - 1;
        }
        if self.right.pressed {
            x = x + 1;
        }
        (x, y)
    }
}

/// A key is held exactly when the last event about it pressed it: events about other
/// keys leave it alone.
pub proof fn lemma_key_follows_last_event(b: KeyBinding, e1: KeyEvent, e2: KeyEvent)
    requires
        e1.key == Some(b.key),
        e2.key != Some(b.key),
    ensures
        key_step(key_step(b, e1).0, e2).0.pressed == e1.pressed,
        key_step(key_step(b, e1).0, e2).0.key == b.key,
{
}

/// Holding both keys of an axis cancels out; the axis value is always -1, 0 or 1.
pub proof fn lemma_axis_value_range(positive: bool, negative: bool)
    ensures
        -1 <= axis_value(positive, negative) <= 1,
        axis_value(true, true) == 0,
        axis_value(positive, negative) == -axis_value(negative, positive),
{
}

} // verus!
