//! Widgets created from a description, handed out by name.
use crate::asset::AssetError;
use crate::gui::GuiNodeId;
use vstd::prelude::*;
use vstd::string::StringExecFns;

verus! {

/// The widgets unpacked from one description: its root node, and the named widgets
/// still to be taken. A widget can be taken once.
pub struct UnpackedWidgets<N> {
    pub root: GuiNodeId,
    pub widgets: Vec<(String, N)>,
}

/// The message for a widget that is missing.
pub open spec fn no_widget_message(name: Seq<char>) -> Seq<char> {
    "no widget named "@ + name
}

/// The message for a widget of another type than asked for.
pub open spec fn wrong_type_message(name: Seq<char>) -> Seq<char> {
    "widget "@ + name + " is wrong type"@
}

/// `r` is an `Other` error with message `message`.
pub open spec fn is_other_error<W>(r: Result<W, AssetError>, message: Seq<char>) -> bool {
    match r {
        Err(AssetError::Other(m)) => m@ == message,
        _ => false,
    }
}

/// The index of the first widget named `name`, if any.
pub open spec fn find_widget<N>(widgets: Seq<(String, N)>, name: Seq<char>) -> Option<int> {
    if exists|i: int| 0 <= i < widgets.len() && widgets[i].0@ == name {
        Some(choose|i: int| 0 <= i < widgets.len() && widgets[i].0@ == name && forall|j: int| 0 <= j < i ==> widgets[j].0@ != name)
    } else {
        None
    }
}

/// No two widgets share a name.
pub open spec fn names_distinct<N>(widgets: Seq<(String, N)>) -> bool {
    forall|i: int, j: int|
        0 <= i < j < widgets.len() ==> #[trigger] widgets[i].0@ != #[trigger] widgets[j].0@
}

impl<N> UnpackedWidgets<N> {
    /// Each name is held at most once.
    pub open spec fn wf(&self) -> bool {
        names_distinct(self.widgets@)
    }

    /// No widgets yet; the root is set once the description has been unpacked.
    pub fn new() -> (r: UnpackedWidgets<N>)
        ensures
            r.root == GuiNodeId(usize::MAX),
            r.widgets@.len() == 0,
            r.wf(),
    {
        UnpackedWidgets { root: GuiNodeId(usize::MAX), widgets: Vec::new() }
    }

    pub fn root(&self) -> (r: GuiNodeId)
        ensures
            r == self.root,
    {
        self.root
    }

    /// Adds a named widget. A widget already held under that name is replaced (the first
    /// one, should several share it).
    pub fn insert(&mut self, name: String, widget: N)
        ensures
            old(self).wf() ==> final(self).wf(),
            final(self).root == old(self).root,
            final(self).widgets@ == match find_widget(old(self).widgets@, name@) {
                Some(i) => old(self).widgets@.update(i, (name, widget)),
                None => old(self).widgets@.push((name, widget)),
            },
    {
        let mut i: usize = 0;
        while i < self.widgets.len()
            invariant
                i <= self.widgets@.len(),
                self.widgets@ == old(self).widgets@,
                self.root == old(self).root,
                forall|j: int| 0 <= j < i ==> self.widgets@[j].0@ != name@,
            decreases self.widgets@.len() - i,
        {
            if str_eq_string(&self.widgets[i].0, name.as_str()) {
                let ghost before = self.widgets@;
                assert(find_widget(before, name@) == Some(i as int)) by {
                    let k = choose|k: int|
                        0 <= k < before.len() && before[k].0@ == name@ && forall|j: int|
                            0 <= j < k ==> before[j].0@ != name@;
                    assert(k == i) by {
                        if k > i {
                            assert(before[i as int].0@ == name@);
                        }
                    }
                }
                self.widgets.set(i, (name, widget));
                assert(old(self).wf() ==> self.wf()) by {
                    if old(self).wf() {
                        assert forall|a: int, b: int| 0 <= a < b < self.widgets@.len() implies
                            #[trigger] self.widgets@[a].0@ != #[trigger] self.widgets@[b].0@ by {
                            if a != i && b != i {
                                assert(before[a].0@ != before[b].0@);
                            } else if a == i {
                                assert(before[a].0@ != before[b].0@);
                            } else {
                                assert(before[a].0@ != before[b].0@);
                            }
                        }
                    }
                }
                return;
            }
            i += 1;
        }
        let ghost before = self.widgets@;
        self.widgets.push((name, widget));
        assert(old(self).wf() ==> self.wf()) by {
            if old(self).wf() {
                assert forall|a: int, b: int| 0 <= a < b < self.widgets@.len() implies
                    #[trigger] self.widgets@[a].0@ != #[trigger] self.widgets@[b].0@ by {
                    if b == before.len() {
                        assert(before[a].0@ != name@);
                    } else {
                        assert(before[a].0@ != before[b].0@);
                    }
                }
            }
        }
    }

    /// Takes the widget named `name` out and converts it with `cast`, which gives `None`
    /// when the widget is of another type. A missing widget, or one `cast` rejects, is an
    /// error; either way the widget is no longer held.
    pub fn get<W>(&mut self, name: &str, cast: impl FnOnce(N) -> Option<W>) -> (r: Result<W, AssetError>)
        requires
            forall|n: N| cast.requires((n,)),
        ensures
            old(self).wf() ==> final(self).wf(),
            final(self).root == old(self).root,
            match find_widget(old(self).widgets@, name@) {
                None => final(self).widgets@ == old(self).widgets@ && is_other_error(
                    r,
                    no_widget_message(name@),
                ),
                Some(i) => {
                    &&& final(self).widgets@ == old(self).widgets@.remove(i)
                    &&& match r {
                        Ok(w) => cast.ensures((old(self).widgets@[i].1,), Some(w)),
                        Err(_) => cast.ensures((old(self).widgets@[i].1,), None) && is_other_error(
                            r,
                            wrong_type_message(name@),
                        ),
                    }
                },
            },
    {
        let mut i: usize = 0;
        while i < self.widgets.len()
            invariant
                i <= self.widgets@.len(),
                self.root == old(self).root,
                self.widgets@ == old(self).widgets@,
                forall|n: N| cast.requires((n,)),
                forall|j: int| 0 <= j < i ==> self.widgets@[j].0@ != name@,
            decreases self.widgets@.len() - i,
        {
            if str_eq_string(&self.widgets[i].0, name) {
                let ghost before = self.widgets@;
                assert(find_widget(before, name@) == Some(i as int)) by {
                    let k = choose|k: int|
                        0 <= k < before.len() && before[k].0@ == name@ && forall|j: int|
                            0 <= j < k ==> before[j].0@ != name@;
                    assert(k == i) by {
                        if k > i {
                            assert(before[i as int].0@ == name@);
                        }
                    }
                }
                let (_, widget) = self.widgets.remove(i);
                assert(old(self).wf() ==> self.wf()) by {
                    if old(self).wf() {
                        assert forall|a: int, b: int| 0 <= a < b < self.widgets@.len() implies
                            #[trigger] self.widgets@[a].0@ != #[trigger] self.widgets@[b].0@ by {
                            let a2 = if a < i { a } else { a + 1 };
                            let b2 = if b < i { b } else { b + 1 };
                            assert(self.widgets@[a] == before[a2]);
                            assert(self.widgets@[b] == before[b2]);
                            assert(before[a2].0@ != before[b2].0@);
                        }
                    }
                }
                return match cast(widget) {
                    Some(w) => Ok(w),
                    None => {
                        let mut m = String::from_str("widget ");
                        m.append(name);
                        m.append(" is wrong type");
                        Err(AssetError::Other(m))
                    },
                };
            }
            i += 1;
        }
        let mut m = String::from_str("no widget named ");
        m.append(name);
        Err(AssetError::Other(m))
    }
}

/// The classes a described node is styled by: its own type first (when it has one),
/// then the classes it lists.
pub fn classes_with_type(node_type: &String, classes: Vec<String>) -> (r: Vec<String>)
    ensures
        node_type@.len() == 0 ==> r@ == classes@,
        node_type@.len() > 0 ==> r@.len() == classes@.len() + 1 && r@[0]@ == node_type@
            && r@.subrange(1, r@.len() as int) == classes@,
{
    let mut classes = classes;
    if !node_type.as_str().is_empty() {
        classes.insert(0, node_type.clone());
    }
    classes
}

/// `a` and `b` hold the same characters.
fn str_eq_string(a: &String, b: &str) -> (r: bool)
    ensures
        r == (a@ == b@),
{
    crate::gui::str_eq(a.as_str(), b)
}

} // verus!
