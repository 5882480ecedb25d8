//! Asset errors, asset categories, and a store that loads each asset at most once.
use vstd::prelude::*;

verus! {

#[verifier::external_type_specification]
#[verifier::external_body]
pub struct ExIoError(std::io::Error);

#[verifier::external_type_specification]
#[verifier::external_body]
pub struct ExIoErrorKind(std::io::ErrorKind);

#[verifier::external_type_specification]
#[verifier::external_body]
pub struct ExImageError(image::ImageError);

/// Why an asset could not be read or written.
#[derive(Debug)]
pub enum AssetError {
    Io(std::io::Error),
    InvalidData,
    InvalidFormat(String),
    Other(String),
}

/// The kind of an I/O error, as `std::io::Error::kind` reads it off the error value.
pub uninterp spec fn io_kind_of(error: std::io::Error) -> std::io::ErrorKind;

/// Calls `std::io::Error::kind`. The contract claims only that the kind is fixed by the
/// error value (named `io_kind_of`); which kind that is, is not stated.
#[verifier::external_body]
fn io_error_kind(error: &std::io::Error) -> (r: std::io::ErrorKind)
    ensures
        r == io_kind_of(*error),
{
    error.kind()
}

impl AssetError {
    /// The kind of I/O error, for errors that came from I/O.
    pub fn io_kind(&self) -> (r: Option<std::io::ErrorKind>)
        ensures
            r == match self {
                AssetError::Io(e) => Some(io_kind_of(*e)),
                _ => None,
            },
    {
        match self {
            AssetError::Io(error) => Some(io_error_kind(error)),
            _ => None,
        }
    }
}

/// Where assets of one kind live, as a directory prefix.
#[derive(Copy, Clone, Debug)]
pub struct AssetCategory(pub &'static str);

impl AssetCategory {
    /// Configuration files.
    pub fn config() -> (r: AssetCategory)
        ensures
            r.0@ == "config"@,
    {
        AssetCategory("config")
    }

    /// Game assets.
    pub fn asset() -> (r: AssetCategory)
        ensures
            r.0@ == "assets"@,
    {
        AssetCategory("assets")
    }

    /// Saved games.
    pub fn save() -> (r: AssetCategory)
        ensures
            r.0@ == "save"@,
    {
        AssetCategory("save")
    }

    pub fn prefix(&self) -> (r: &str)
        ensures
            r@ == self.0@,
    {
        self.0
    }
}

/// The map that a list of (key, value) entries stands for; a later entry wins.
pub open spec fn entries_map<T>(entries: Seq<(Seq<char>, T)>) -> Map<Seq<char>, T>
    decreases entries.len(),
{
    if entries.len() == 0 {
        Map::empty()
    } else {
        entries_map(entries.drop_last()).insert(entries.last().0, entries.last().1)
    }
}

/// No key occurs twice.
pub open spec fn keys_distinct<T>(entries: Seq<(Seq<char>, T)>) -> bool {
    forall|i: int, j: int|
        0 <= i < j < entries.len() ==> #[trigger] entries[i].0 != #[trigger] entries[j].0
}

proof fn lemma_entries_map_contains<T>(entries: Seq<(Seq<char>, T)>, k: Seq<char>)
    ensures
        entries_map(entries).contains_key(k) <==> exists|i: int|
            0 <= i < entries.len() && #[trigger] entries[i].0 == k,
    decreases entries.len(),
{
    if entries.len() > 0 {
        let rest = entries.drop_last();
        lemma_entries_map_contains(rest, k);
        if entries_map(entries).contains_key(k) && entries.last().0 != k {
            let i = choose|i: int| 0 <= i < rest.len() && #[trigger] rest[i].0 == k;
            assert(entries[i].0 == k);
        }
        if exists|i: int| 0 <= i < entries.len() && #[trigger] entries[i].0 == k {
            let i = choose|i: int| 0 <= i < entries.len() && #[trigger] entries[i].0 == k;
            if i < entries.len() - 1 {
                assert(rest[i].0 == k);
            }
        }
    }
}

proof fn lemma_entries_map_value<T>(entries: Seq<(Seq<char>, T)>, i: int)
    requires
        keys_distinct(entries),
        0 <= i < entries.len(),
    ensures
        entries_map(entries).contains_key(entries[i].0),
        entries_map(entries)[entries[i].0] == entries[i].1,
    decreases entries.len(),
{
    if i < entries.len() - 1 {
        let rest = entries.drop_last();
        assert(rest[i] == entries[i]);
        assert(keys_distinct(rest)) by {
            assert forall|a: int, b: int| 0 <= a < b < rest.len() implies #[trigger] rest[a].0
                != #[trigger] rest[b].0 by {
                assert(rest[a] == entries[a] && rest[b] == entries[b]);
            }
        }
        lemma_entries_map_value(rest, i);
        assert(entries[i].0 != entries.last().0);
    }
}

proof fn lemma_entries_map_update<T>(entries: Seq<(Seq<char>, T)>, i: int, v: T)
    requires
        keys_distinct(entries),
        0 <= i < entries.len(),
    ensures
        entries_map(entries.update(i, (entries[i].0, v))) == entries_map(entries).insert(
            entries[i].0,
            v,
        ),
    decreases entries.len(),
{
    let k = entries[i].0;
    let updated = entries.update(i, (k, v));
    if i == entries.len() - 1 {
        assert(updated.drop_last() =~= entries.drop_last());
        lemma_entries_map_contains(entries.drop_last(), k);
        assert(entries_map(updated) =~= entries_map(entries).insert(k, v));
    } else {
        let rest = entries.drop_last();
        assert(keys_distinct(rest)) by {
            assert forall|a: int, b: int| 0 <= a < b < rest.len() implies #[trigger] rest[a].0
                != #[trigger] rest[b].0 by {
                assert(rest[a] == entries[a] && rest[b] == entries[b]);
            }
        }
        assert(rest[i] == entries[i]);
        lemma_entries_map_update(rest, i, v);
        assert(updated.drop_last() =~= rest.update(i, (k, v)));
        assert(entries.last().0 != k);
        assert(entries_map(updated) =~= entries_map(entries).insert(k, v));
    }
}

/// Loaded assets by path. Each path holds at most one asset.
pub struct AssetStorage<T> {
    entries: Vec<(String, T)>,
}

impl<T> AssetStorage<T> {
    pub closed spec fn entry_views(&self) -> Seq<(Seq<char>, T)> {
        self.entries@.map_values(|e: (String, T)| (e.0@, e.1))
    }

    /// The paths are distinct.
    pub closed spec fn wf(&self) -> bool {
        keys_distinct(self.entry_views())
    }

    /// The asset stored under each path.
    pub closed spec fn view(&self) -> Map<Seq<char>, T> {
        entries_map(self.entry_views())
    }

    pub fn new() -> (r: AssetStorage<T>)
        ensures
            r.wf(),
            r.view() == Map::<Seq<char>, T>::empty(),
    {
        let r = AssetStorage { entries: Vec::new() };
        assert(r.entry_views() =~= Seq::empty());
        r
    }

    /// The position of `asset_path` among the entries, if present.
    fn find(&self, asset_path: &str) -> (r: Option<usize>)
        requires
            self.wf(),
        ensures
            match r {
                Some(i) => i < self.entries@.len() && self.entry_views()[i as int].0
                    == asset_path@,
                None => !self.view().contains_key(asset_path@),
            },
    {
        let mut i: usize = 0;
        while i < self.entries.len()
            invariant
                i <= self.entries@.len(),
                forall|j: int| 0 <= j < i ==> self.entry_views()[j].0 != asset_path@,
            decreases self.entries@.len() - i,
        {
            if crate::gui::str_eq(self.entries[i].0.as_str(), asset_path) {
                return Some(i);
            }
            i += 1;
        }
        proof {
            lemma_entries_map_contains(self.entry_views(), asset_path@);
        }
        None
    }

    pub fn contains(&self, asset_path: &str) -> (r: bool)
        requires
            self.wf(),
        ensures
            r == self.view().contains_key(asset_path@),
    {
        match self.find(asset_path) {
            Some(i) => {
                proof {
                    lemma_entries_map_value(self.entry_views(), i as int);
                }
                true
            },
            None => false,
        }
    }

    pub fn get(&self, asset_path: &str) -> (r: Option<&T>)
        requires
            self.wf(),
        ensures
            match r {
                Some(v) => self.view().contains_key(asset_path@) && *v == self.view()[asset_path@],
                None => !self.view().contains_key(asset_path@),
            },
    {
        match self.find(asset_path) {
            Some(i) => {
                proof {
                    lemma_entries_map_value(self.entry_views(), i as int);
                }
                Some(&self.entries[i].1)
            },
            None => None,
        }
    }

    /// Stores `asset` under `asset_path`, returning the asset it replaces.
    pub fn insert(&mut self, asset_path: String, asset: T) -> (r: Option<T>)
        requires
            old(self).wf(),
        ensures
            final(self).wf(),
            final(self).view() == old(self).view().insert(asset_path@, asset),
            r == if old(self).view().contains_key(asset_path@) {
                Some(old(self).view()[asset_path@])
            } else {
                None
            },
    {
        let ghost old_views = self.entry_views();
        match self.find(asset_path.as_str()) {
            Some(i) => {
                proof {
                    lemma_entries_map_value(old_views, i as int);
                    lemma_entries_map_update(old_views, i as int, asset);
                }
                let mut slot = asset;
                std::mem::swap(&mut slot, &mut self.entries[i].1);
                assert(self.entry_views() =~= old_views.update(i as int, (old_views[i as int].0, asset)));
                assert(self.wf()) by {
                    let v = self.entry_views();
                    assert forall|a: int, b: int| 0 <= a < b < v.len() implies #[trigger] v[a].0
                        != #[trigger] v[b].0 by {
                        assert(v[a].0 == old_views[a].0 && v[b].0 == old_views[b].0);
                    }
                }
                Some(slot)
            },
            None => {
                proof {
                    lemma_entries_map_contains(old_views, asset_path@);
                }
                self.entries.push((asset_path, asset));
                let ghost pushed = self.entry_views();
                assert(pushed.drop_last() =~= old_views);
                assert(self.wf()) by {
                    assert forall|a: int, b: int| 0 <= a < b < pushed.len() implies #[trigger] pushed[a].0
                        != #[trigger] pushed[b].0 by {
                        if b == pushed.len() - 1 {
                            assert(pushed[a] == old_views[a]);
                        } else {
                            assert(pushed[a] == old_views[a] && pushed[b] == old_views[b]);
                        }
                    }
                }
                None
            },
        }
    }

    /// The asset stored under `asset_path`, calling `loader` to load it first if it is not
    /// stored yet; what `loader` returns is stored, and a failed load stores nothing.
    pub fn load(&mut self, asset_path: &str, loader: impl FnOnce() -> Option<T>) -> (r: Option<&T>)
        requires
            old(self).wf(),
            loader.requires(()),
        ensures
            final(self).wf(),
            old(self).view().contains_key(asset_path@) ==> final(self).view() == old(self).view(),
            !old(self).view().contains_key(asset_path@) ==> (final(self).view() == old(self).view()
                && loader.ensures((), None)) || (exists|a: T|
                loader.ensures((), Some(a)) && final(self).view() == old(self).view().insert(
                    asset_path@,
                    a,
                )),
            match r {
                Some(v) => final(self).view().contains_key(asset_path@) && *v == final(self).view()[asset_path@],
                None => !final(self).view().contains_key(asset_path@),
            },
    {
        if !self.contains(asset_path) {
            match loader() {
                Some(asset) => {
                    self.insert(asset_path.to_owned(), asset);
                },
                None => {},
            }
        }
        self.get(asset_path)
    }
}

/// A decoded image: its size in pixels, the number of channels per pixel, and the pixel
/// data row by row, each sample in the image's own sample type.
pub struct DecodedImage {
    pub width: u32,
    pub height: u32,
    pub channels: u8,
    pub pixels: Vec<u8>,
}

/// What `image::load_from_memory` makes of `bytes`, as width, height, channel count and
/// pixel bytes; `None` where it reports an error.
pub uninterp spec fn decoded_image(bytes: Seq<u8>) -> Option<(u32, u32, u8, Seq<u8>)>;

/// Calls `image::load_from_memory`, which guesses the format from the bytes and decodes
/// them. The contract claims only that success and the decoded image are fixed by the
/// bytes (named `decoded_image`); which error comes back is not stated.
#[verifier::external_body]
fn decode_image(bytes: &[u8]) -> (r: Result<DecodedImage, image::ImageError>)
    ensures
        (r is Ok) == (decoded_image(bytes@) is Some),
        r is Ok ==> (r->Ok_0.width, r->Ok_0.height, r->Ok_0.channels, r->Ok_0.pixels@)
            == decoded_image(bytes@)->Some_0,
{
    match image::load_from_memory(bytes) {
        Ok(img) => Ok(DecodedImage {
            width: img.width(),
            height: img.height(),
            channels: img.color().channel_count(),
            pixels: img.into_bytes(),
        }),
        Err(e) => Err(e),
    }
}

/// Tells `image::ImageError::IoError` apart from the other variants: its I/O error, or the
/// error as it was. Nothing is stated of which variant an error is.
#[verifier::external_body]
fn image_io_error(error: image::ImageError) -> Result<std::io::Error, image::ImageError> {
    match error {
        image::ImageError::IoError(e) => Ok(e),
        other => Err(other),
    }
}

/// The message `image::ImageError` displays (its `Display` impl); nothing is stated of it.
#[verifier::external_body]
fn image_error_message(error: &image::ImageError) -> String {
    format!("{}", error)
}

/// Decodes an image file's bytes. An I/O error while decoding is an `Io` error; any other
/// decoding error is `InvalidFormat` with the decoder's message.
pub fn load_image(bytes: &[u8]) -> (r: Result<DecodedImage, AssetError>)
    ensures
        (r is Ok) == (decoded_image(bytes@) is Some),
        r is Ok ==> (r->Ok_0.width, r->Ok_0.height, r->Ok_0.channels, r->Ok_0.pixels@)
            == decoded_image(bytes@)->Some_0,
        r is Err ==> (r->Err_0 is Io || r->Err_0 is InvalidFormat),
{
    match decode_image(bytes) {
        Ok(image) => Ok(image),
        Err(error) => match image_io_error(error) {
            Ok(io) => Err(AssetError::Io(io)),
            Err(other) => Err(AssetError::InvalidFormat(image_error_message(&other))),
        },
    }
}

/// What a read gives back of a write. Once `insert(path, asset)` has turned `before`
/// into `after` (its contract), `after` holds `asset` under `path`, so `get(path)` gives
/// `asset`, and `load(path, loader)` finds it stored: by `load`'s contract it leaves the
/// store as it is, does not use its loader, and gives back `asset`. Every other path reads
/// as it did in `before`.
pub proof fn lemma_read_after_write<T>(
    before: AssetStorage<T>,
    after: AssetStorage<T>,
    path: Seq<char>,
    asset: T,
)
    requires
        after.view() == before.view().insert(path, asset),
    ensures
        after.view().contains_key(path),
        after.view()[path] == asset,
        forall|other: Seq<char>|
            other != path ==> (after.view().contains_key(other) == before.view().contains_key(other)
                && (before.view().contains_key(other) ==> after.view()[other]
                == before.view()[other])),
{
}

} // verus!
