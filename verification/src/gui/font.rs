//! Fonts by index, and looking a font up by name.
use vstd::prelude::*;

verus! {

/// Index of a loaded font; the largest index means "no font".
#[derive(Copy, Clone, Default, PartialEq, Eq, Structural, Debug)]
pub struct Font(pub usize);

impl Font {
    pub fn null() -> (r: Font)
        ensures
            r.0 == usize::MAX,
    {
        Font(usize::MAX)
    }

    pub fn is_null(&self) -> (r: bool)
        ensures
            r == (self.0 == usize::MAX),
    {
        self.0 == usize::MAX
    }
}

/// The names of the loaded fonts, in load order.
pub struct FontList {
    pub names: Vec<String>,
}

/// The index of the first name equal to `name`, if any.
pub open spec fn first_index_of(names: Seq<Seq<char>>, name: Seq<char>) -> Option<int> {
    if exists|i: int| 0 <= i < names.len() && names[i] == name {
        Some(choose|i: int| 0 <= i < names.len() && names[i] == name && forall|j: int| 0 <= j < i ==> names[j] != name)
    } else {
        None
    }
}

impl FontList {
    pub open spec fn name_views(&self) -> Seq<Seq<char>> {
        self.names@.map_values(|s: String| s@)
    }

    /// The font loaded under `name`: the first one with that name, or the null font when
    /// there is none.
    pub fn find(&self, name: &str) -> (r: Font)
        ensures
            match first_index_of(self.name_views(), name@) {
                Some(i) => r.0 == i,
                None => r.0 == usize::MAX,
            },
    {
        let wanted = name.to_owned();
        let mut i: usize = 0;
        while i < self.names.len()
            invariant
                i <= self.names@.len(),
                wanted@ == name@,
                forall|j: int| 0 <= j < i ==> self.name_views()[j] != name@,
            decreases self.names@.len() - i,
        {
            if self.names[i] == wanted {
                assert(self.name_views()[i as int] == name@);
                assert(first_index_of(self.name_views(), name@) == Some(i as int)) by {
                    let k = choose|k: int|
                        0 <= k < self.name_views().len() && self.name_views()[k] == name@
                            && forall|j: int| 0 <= j < k ==> self.name_views()[j] != name@;
                    assert(k == i) by {
                        if k < i {
                        } else if k > i {
                            assert(self.name_views()[i as int] == name@);
                        }
                    }
                }
                return Font(i);
            }
            i += 1;
        }
        Font::null()
    }
}

/// Which entries of a font list to load: none unless the list's loader is `"font"`, and
/// otherwise every entry whose asset type is `"font"`, in list order. Returns their
/// positions in `asset_types`.
pub fn fonts_to_load(loader: &str, asset_types: &Vec<String>) -> (r: Vec<usize>)
    ensures
        loader@ != "font"@ ==> r@.len() == 0,
        loader@ == "font"@ ==> {
            &&& forall|k: int| 0 <= k < r@.len() ==> #[trigger] r@[k] < asset_types@.len()
                && asset_types@[r@[k] as int]@ == "font"@
            &&& forall|a: int, b: int| 0 <= a < b < r@.len() ==> r@[a] < r@[b]
            &&& forall|i: int|
                0 <= i < asset_types@.len() && #[trigger] asset_types@[i]@ == "font"@
                    ==> r@.contains(i as usize)
        },
{
    let mut r: Vec<usize> = Vec::new();
    if !crate::gui::str_eq(loader, "font") {
        return r;
    }
    let mut i: usize = 0;
    while i < asset_types.len()
        invariant
            loader@ == "font"@,
            i <= asset_types@.len(),
            forall|k: int| 0 <= k < r@.len() ==> #[trigger] r@[k] < i && asset_types@[r@[k] as int]@
                == "font"@,
            forall|a: int, b: int| 0 <= a < b < r@.len() ==> r@[a] < r@[b],
            forall|j: int|
                0 <= j < i && #[trigger] asset_types@[j]@ == "font"@ ==> r@.contains(j as usize),
        decreases asset_types@.len() - i,
    {
        let ghost old_r = r@;
        if crate::gui::str_eq(asset_types[i].as_str(), "font") {
            r.push(i);
        }
        proof {
            assert forall|j: int|
                0 <= j < i + 1 && #[trigger] asset_types@[j]@ == "font"@ implies r@.contains(
                j as usize,
            ) by {
                if j == i {
                    assert(r@[r@.len() - 1] == i);
                } else {
                    let k = choose|k: int| 0 <= k < old_r.len() && old_r[k] == j as usize;
                    assert(r@[k] == old_r[k]);
                }
            }
        }
        i += 1;
    }
    r
}

} // verus!