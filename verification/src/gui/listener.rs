//! Values that tell listeners when they change, and comparisons listeners can test.
use std::cmp::Ordering;
use vstd::prelude::*;
use vstd::std_specs::cmp::PartialEqSpec;
use crate::gui::{Gui, GuiModel};
use crate::gui::button::{state_when_enabled, Button};

verus! {

/// A comparison of a value against a fixed operand.
#[derive(Copy, Clone, Eq, PartialEq, Structural, Debug)]
pub enum Comparison {
    Equal,
    NotEqual,
    Greater,
    GreaterEqual,
    Less,
    LessEqual,
}

/// Whether an ordering (value compared with operand) satisfies the comparison.
pub open spec fn comparison_holds(c: Comparison, ordering: Ordering) -> bool {
    match c {
        Comparison::Equal => ordering is Equal,
        Comparison::NotEqual => !(ordering is Equal),
        Comparison::Greater => ordering is Greater,
        Comparison::GreaterEqual => !(ordering is Less),
        Comparison::Less => ordering is Less,
        Comparison::LessEqual => !(ordering is Greater),
    }
}

impl Comparison {
    pub fn matches(self, ordering: Ordering) -> (r: bool)
        ensures
            r == comparison_holds(self, ordering),
    {
        match self {
            Comparison::Equal => match ordering {
                Ordering::Equal => true,
                _ => false,
            },
            Comparison::NotEqual => match ordering {
                Ordering::Equal => false,
                _ => true,
            },
            Comparison::Greater => match ordering {
                Ordering::Greater => true,
                _ => false,
            },
            Comparison::GreaterEqual => match ordering {
                Ordering::Less => false,
                _ => true,
            },
            Comparison::Less => match ordering {
                Ordering::Less => true,
                _ => false,
            },
            Comparison::LessEqual => match ordering {
                Ordering::Greater => false,
                _ => true,
            },
        }
    }

    /// The comparison applied to a partial ordering; values that do not compare give
    /// `false`.
    pub fn matches_partial(self, ordering: Option<Ordering>) -> (r: bool)
        ensures
            r == match ordering {
                Some(o) => comparison_holds(self, o),
                None => false,
            },
    {
        match ordering {
            Some(o) => self.matches(o),
            None => false,
        }
    }
}

/// Each comparison and its opposite disagree on every ordering: `Equal`/`NotEqual`,
/// `Greater`/`LessEqual` and `Less`/`GreaterEqual` split the orderings between them.
pub proof fn lemma_comparison_complements(o: Ordering)
    ensures
        comparison_holds(Comparison::Equal, o) != comparison_holds(Comparison::NotEqual, o),
        comparison_holds(Comparison::Greater, o) != comparison_holds(Comparison::LessEqual, o),
        comparison_holds(Comparison::Less, o) != comparison_holds(Comparison::GreaterEqual, o),
{
}

/// Something told about every change of a `GuiValue`, with the GUI at hand to act on.
pub trait GuiValueListener<T, D>: Sized {
    /// The listener and the GUI after the listener is told `new_value`.
    spec fn told(self, gui: GuiModel<D>, new_value: T) -> (Self, GuiModel<D>);

    fn value_changed(&mut self, gui: &mut Gui<D>, new_value: &T)
        requires
            old(gui)@.wf(),
        ensures
            (*final(self), final(gui)@) == old(self).told(old(gui)@, *new_value),
            final(gui)@.wf(),
    ;
}

/// Tells `listeners` the value `v` one after another, first to last, starting from the GUI
/// `gui`: the listeners as they are afterwards, and the GUI at the end.
pub open spec fn tell_all<T, D, L: GuiValueListener<T, D>>(
    listeners: Seq<L>,
    gui: GuiModel<D>,
    v: T,
) -> (Seq<L>, GuiModel<D>)
    decreases listeners.len(),
{
    if listeners.len() == 0 {
        (listeners, gui)
    } else {
        let (before, g) = tell_all(listeners.drop_last(), gui, v);
        let (last, g2) = listeners.last().told(g, v);
        (before.push(last), g2)
    }
}

/// A value that may not be set yet, and the listeners told each time it changes.
pub struct GuiValue<T, L> {
    pub value: Option<T>,
    pub listeners: Vec<L>,
}

impl<T: Clone + PartialEq, L> GuiValue<T, L> {
    pub fn new() -> (r: GuiValue<T, L>)
        ensures
            r.value is None,
            r.listeners@.len() == 0,
    {
        GuiValue { value: None, listeners: Vec::new() }
    }

    /// The current value; it must have been set.
    pub fn get_ref(&self) -> (r: &T)
        requires
            self.value is Some,
        ensures
            *r == self.value->Some_0,
    {
        self.value.as_ref().unwrap()
    }

    /// A copy of the current value; it must have been set.
    pub fn get(&self) -> (r: T)
        requires
            self.value is Some,
        ensures
            cloned(self.value->Some_0, r),
    {
        self.get_ref().clone()
    }

    /// Adds a listener, told after those added before it.
    pub fn add_listener(&mut self, listener: L)
        ensures
            final(self).value == old(self).value,
            final(self).listeners@ == old(self).listeners@.push(listener),
    {
        self.listeners.push(listener);
    }

    /// Stores `value` unless it equals the value already set. When it is stored, every
    /// listener is told the new value once, in the order they were added. Returns whether
    /// the value was stored.
    pub fn set<D>(&mut self, gui: &mut Gui<D>, value: T) -> (changed: bool)
        where L: GuiValueListener<T, D>,
        requires
            old(gui)@.wf(),
        ensures
            final(gui)@.wf(),
            old(self).value is None ==> changed,
            T::obeys_eq_spec() ==> (changed <==> !(old(self).value is Some
                && old(self).value->Some_0.eq_spec(&value))),
            changed ==> final(self).value == Some(value) && (final(self).listeners@, final(gui)@)
                == tell_all(old(self).listeners@, old(gui)@, value),
            !changed ==> *final(self) == *old(self) && final(gui)@ == old(gui)@,
    {
        let same = match &self.value {
            Some(v) => v.eq(&value),
            None => false,
        };
        if same {
            return false;
        }
        let ghost ls0 = self.listeners@;
        let ghost g0 = gui@;
        self.value = Some(value);
        let n = self.listeners.len();
        let mut i: usize = 0;
        while i < n
            invariant
                n == self.listeners@.len(),
                n == ls0.len(),
                i <= n,
                self.value == Some(value),
                gui@.wf(),
                (self.listeners@.take(i as int), gui@) == tell_all(ls0.take(i as int), g0, value),
                forall|j: int| i <= j < n ==> self.listeners@[j] == ls0[j],
            decreases n - i,
        {
            let ghost before = self.listeners@;
            let ghost g_before = gui@;
            let v = self.value.as_ref().unwrap();
            self.listeners[i].value_changed(gui, v);
            proof {
                let t = ls0.take(i + 1);
                assert(t.drop_last() =~= ls0.take(i as int));
                assert(t.last() == ls0[i as int]);
                assert(self.listeners@.take(i + 1) =~= before.take(i as int).push(
                    self.listeners@[i as int],
                ));
                assert forall|j: int| i + 1 <= j < n implies self.listeners@[j] == ls0[j] by {
                    assert(self.listeners@[j] == before[j]);
                }
            }
            i += 1;
        }
        proof {
            assert(self.listeners@.take(n as int) =~= self.listeners@);
            assert(ls0.take(n as int) =~= ls0);
        }
        true
    }
}

/// Tells `L` whether each new value stands in `Comparison` to a fixed operand.
pub struct Compare<V, L>(pub Comparison, pub V, pub L);

/// Whether `a` stands in comparison `c` to `b`.
pub open spec fn compare_ints(c: Comparison, a: int, b: int) -> bool {
    match c {
        Comparison::Equal => a == b,
        Comparison::NotEqual => a != b,
        Comparison::Greater => a > b,
        Comparison::GreaterEqual => a >= b,
        Comparison::Less => a < b,
        Comparison::LessEqual => a <= b,
    }
}

/// How `a` orders against `b`.
pub open spec fn ordering_of(a: int, b: int) -> Ordering {
    if a < b {
        Ordering::Less
    } else if a == b {
        Ordering::Equal
    } else {
        Ordering::Greater
    }
}

/// Comparing two integers directly agrees with matching the comparison against how they
/// order.
pub proof fn lemma_compare_ints_matches(c: Comparison, a: int, b: int)
    ensures
        compare_ints(c, a, b) == comparison_holds(c, ordering_of(a, b)),
{
}

impl<D, L: GuiValueListener<bool, D>> GuiValueListener<i8, D> for Compare<i8, L> {
    open spec fn told(self, gui: GuiModel<D>, new_value: i8) -> (Self, GuiModel<D>) {
        let (inner, g) = self.2.told(gui, compare_ints(self.0, new_value as int, self.1 as int));
        (Compare(self.0, self.1, inner), g)
    }

    fn value_changed(&mut self, gui: &mut Gui<D>, new_value: &i8) {
        let v = *new_value;
        let holds = match self.0 {
            Comparison::Equal => v == self.1,
            Comparison::NotEqual => v != self.1,
            Comparison::Greater => v > self.1,
            Comparison::GreaterEqual => v >= self.1,
            Comparison::Less => v < self.1,
            Comparison::LessEqual => v <= self.1,
        };
        self.2.value_changed(gui, &holds);
    }
}

impl<D, L: GuiValueListener<bool, D>> GuiValueListener<i16, D> for Compare<i16, L> {
    open spec fn told(self, gui: GuiModel<D>, new_value: i16) -> (Self, GuiModel<D>) {
        let (inner, g) = self.2.told(gui, compare_ints(self.0, new_value as int, self.1 as int));
        (Compare(self.0, self.1, inner), g)
    }

    fn value_changed(&mut self, gui: &mut Gui<D>, new_value: &i16) {
        let v = *new_value;
        let holds = match self.0 {
            Comparison::Equal => v == self.1,
            Comparison::NotEqual => v != self.1,
            Comparison::Greater => v > self.1,
            Comparison::GreaterEqual => v >= self.1,
            Comparison::Less => v < self.1,
            Comparison::LessEqual => v <= self.1,
        };
        self.2.value_changed(gui, &holds);
    }
}

impl<D, L: GuiValueListener<bool, D>> GuiValueListener<i32, D> for Compare<i32, L> {
    open spec fn told(self, gui: GuiModel<D>, new_value: i32) -> (Self, GuiModel<D>) {
        let (inner, g) = self.2.told(gui, compare_ints(self.0, new_value as int, self.1 as int));
        (Compare(self.0, self.1, inner), g)
    }

    fn value_changed(&mut self, gui: &mut Gui<D>, new_value: &i32) {
        let v = *new_value;
        let holds = match self.0 {
            Comparison::Equal => v == self.1,
            Comparison::NotEqual => v != self.1,
            Comparison::Greater => v > self.1,
            Comparison::GreaterEqual => v >= self.1,
            Comparison::Less => v < self.1,
            Comparison::LessEqual => v <= self.1,
        };
        self.2.value_changed(gui, &holds);
    }
}

impl<D, L: GuiValueListener<bool, D>> GuiValueListener<i64, D> for Compare<i64, L> {
    open spec fn told(self, gui: GuiModel<D>, new_value: i64) -> (Self, GuiModel<D>) {
        let (inner, g) = self.2.told(gui, compare_ints(self.0, new_value as int, self.1 as int));
        (Compare(self.0, self.1, inner), g)
    }

    fn value_changed(&mut self, gui: &mut Gui<D>, new_value: &i64) {
        let v = *new_value;
        let holds = match self.0 {
            Comparison::Equal => v == self.1,
            Comparison::NotEqual => v != self.1,
            Comparison::Greater => v > self.1,
            Comparison::GreaterEqual => v >= self.1,
            Comparison::Less => v < self.1,
            Comparison::LessEqual => v <= self.1,
        };
        self.2.value_changed(gui, &holds);
    }
}

impl<D, L: GuiValueListener<bool, D>> GuiValueListener<isize, D> for Compare<isize, L> {
    open spec fn told(self, gui: GuiModel<D>, new_value: isize) -> (Self, GuiModel<D>) {
        let (inner, g) = self.2.told(gui, compare_ints(self.0, new_value as int, self.1 as int));
        (Compare(self.0, self.1, inner), g)
    }

    fn value_changed(&mut self, gui: &mut Gui<D>, new_value: &isize) {
        let v = *new_value;
        let holds = match self.0 {
            Comparison::Equal => v == self.1,
            Comparison::NotEqual => v != self.1,
            Comparison::Greater => v > self.1,
            Comparison::GreaterEqual => v >= self.1,
            Comparison::Less => v < self.1,
            Comparison::LessEqual => v <= self.1,
        };
        self.2.value_changed(gui, &holds);
    }
}

impl<D, L: GuiValueListener<bool, D>> GuiValueListener<u8, D> for Compare<u8, L> {
    open spec fn told(self, gui: GuiModel<D>, new_value: u8) -> (Self, GuiModel<D>) {
        let (inner, g) = self.2.told(gui, compare_ints(self.0, new_value as int, self.1 as int));
        (Compare(self.0, self.1, inner), g)
    }

    fn value_changed(&mut self, gui: &mut Gui<D>, new_value: &u8) {
        let v = *new_value;
        let holds = match self.0 {
            Comparison::Equal => v == self.1,
            Comparison::NotEqual => v != self.1,
            Comparison::Greater => v > self.1,
            Comparison::GreaterEqual => v >= self.1,
            Comparison::Less => v < self.1,
            Comparison::LessEqual => v <= self.1,
        };
        self.2.value_changed(gui, &holds);
    }
}

impl<D, L: GuiValueListener<bool, D>> GuiValueListener<u16, D> for Compare<u16, L> {
    open spec fn told(self, gui: GuiModel<D>, new_value: u16) -> (Self, GuiModel<D>) {
        let (inner, g) = self.2.told(gui, compare_ints(self.0, new_value as int, self.1 as int));
        (Compare(self.0, self.1, inner), g)
    }

    fn value_changed(&mut self, gui: &mut Gui<D>, new_value: &u16) {
        let v = *new_value;
        let holds = match self.0 {
            Comparison::Equal => v == self.1,
            Comparison::NotEqual => v != self.1,
            Comparison::Greater => v > self.1,
            Comparison::GreaterEqual => v >= self.1,
            Comparison::Less => v < self.1,
            Comparison::LessEqual => v <= self.1,
        };
        self.2.value_changed(gui, &holds);
    }
}

impl<D, L: GuiValueListener<bool, D>> GuiValueListener<u32, D> for Compare<u32, L> {
    open spec fn told(self, gui: GuiModel<D>, new_value: u32) -> (Self, GuiModel<D>) {
        let (inner, g) = self.2.told(gui, compare_ints(self.0, new_value as int, self.1 as int));
        (Compare(self.0, self.1, inner), g)
    }

    fn value_changed(&mut self, gui: &mut Gui<D>, new_value: &u32) {
        let v = *new_value;
        let holds = match self.0 {
            Comparison::Equal => v == self.1,
            Comparison::NotEqual => v != self.1,
            Comparison::Greater => v > self.1,
            Comparison::GreaterEqual => v >= self.1,
            Comparison::Less => v < self.1,
            Comparison::LessEqual => v <= self.1,
        };
        self.2.value_changed(gui, &holds);
    }
}

impl<D, L: GuiValueListener<bool, D>> GuiValueListener<u64, D> for Compare<u64, L> {
    open spec fn told(self, gui: GuiModel<D>, new_value: u64) -> (Self, GuiModel<D>) {
        let (inner, g) = self.2.told(gui, compare_ints(self.0, new_value as int, self.1 as int));
        (Compare(self.0, self.1, inner), g)
    }

    fn value_changed(&mut self, gui: &mut Gui<D>, new_value: &u64) {
        let v = *new_value;
        let holds = match self.0 {
            Comparison::Equal => v == self.1,
            Comparison::NotEqual => v != self.1,
            Comparison::Greater => v > self.1,
            Comparison::GreaterEqual => v >= self.1,
            Comparison::Less => v < self.1,
            Comparison::LessEqual => v <= self.1,
        };
        self.2.value_changed(gui, &holds);
    }
}

impl<D, L: GuiValueListener<bool, D>> GuiValueListener<usize, D> for Compare<usize, L> {
    open spec fn told(self, gui: GuiModel<D>, new_value: usize) -> (Self, GuiModel<D>) {
        let (inner, g) = self.2.told(gui, compare_ints(self.0, new_value as int, self.1 as int));
        (Compare(self.0, self.1, inner), g)
    }

    fn value_changed(&mut self, gui: &mut Gui<D>, new_value: &usize) {
        let v = *new_value;
        let holds = match self.0 {
            Comparison::Equal => v == self.1,
            Comparison::NotEqual => v != self.1,
            Comparison::Greater => v > self.1,
            Comparison::GreaterEqual => v >= self.1,
            Comparison::Less => v < self.1,
            Comparison::LessEqual => v <= self.1,
        };
        self.2.value_changed(gui, &holds);
    }
}

/// Enables its button when the value is `true` and disables it when `false`.
pub struct EnableButton(pub Button);

impl<D> GuiValueListener<bool, D> for EnableButton {
    open spec fn told(self, gui: GuiModel<D>, new_value: bool) -> (Self, GuiModel<D>) {
        (EnableButton(Button { state: state_when_enabled(self.0, new_value), ..self.0 }), gui)
    }

    fn value_changed(&mut self, gui: &mut Gui<D>, new_value: &bool) {
        self.0.set_enabled(*new_value);
    }
}

} // verus!
