//! Window setup and the saved window configuration: its size, whether it is fullscreen,
//! and how resizing and toggling fullscreen change it.
use vstd::prelude::*;

verus! {

/// How to open the window: its title, optional icon file, whether it can be resized, and
/// the file its configuration is kept in (file paths as text).
pub struct WindowSetup<'a> {
    pub title: String,
    pub icon: Option<&'a str>,
    pub resizable: bool,
    pub config: &'a str,
}

impl<'a> WindowSetup<'a> {
    /// A resizable window with no icon, configured from `window.yaml`.
    pub fn with_title(title: String) -> (r: WindowSetup<'a>)
        ensures
            r.title == title,
            r.icon is None,
            r.resizable,
            r.config@ == "window.yaml"@,
    {
        WindowSetup { title, icon: None, resizable: true, config: "window.yaml" }
    }

    /// A resizable window with the given icon, configured from `window.yaml`.
    pub fn with_title_and_icon(title: String, icon: &'a str) -> (r: WindowSetup<'a>)
        ensures
            r.title == title,
            r.icon == Some(icon),
            r.resizable,
            r.config@ == "window.yaml"@,
    {
        WindowSetup { title, icon: Some(icon), resizable: true, config: "window.yaml" }
    }
}

/// The saved window configuration.
#[derive(Copy, Clone, PartialEq, Eq, Structural, Debug)]
pub struct WindowConfig {
    pub width: u32,
    pub height: u32,
    pub fullscreen: bool,
    pub sample_count: Option<u32>,
}

impl Default for WindowConfig {
    /// An 800 by 600 window, not fullscreen, with the default sample count.
    fn default() -> (r: WindowConfig)
        ensures
            r == (WindowConfig { width: 800, height: 600, fullscreen: false, sample_count: None }),
    {
        WindowConfig { width: 800, height: 600, fullscreen: false, sample_count: None }
    }
}

/// The settings a window is opened with.
#[derive(Clone, Debug)]
pub struct WindowConf {
    pub window_title: String,
    pub window_width: i32,
    pub window_height: i32,
    pub fullscreen: bool,
    pub sample_count: i32,
    pub window_resizable: bool,
}

/// The settings to open a window with, from its setup and configuration: sizes become
/// `i32` (wrapping above `i32::MAX`) and a missing sample count means one sample.
pub fn window_conf(title: String, resizable: bool, config: &WindowConfig) -> (r: WindowConf)
    ensures
        r.window_title == title,
        r.window_width == config.width as i32,
        r.window_height == config.height as i32,
        r.fullscreen == config.fullscreen,
        r.sample_count == match config.sample_count {
            Some(n) => n as i32,
            None => 1i32,
        },
        r.window_resizable == resizable,
{
    WindowConf {
        window_title: title,
        window_width: config.width as i32,
        window_height: config.height as i32,
        fullscreen: config.fullscreen,
        sample_count: match config.sample_count {
            Some(n) => n as i32,
            None => 1,
        },
        window_resizable: resizable,
    }
}

/// The configuration after the window is resized to `width` by `height`: the size is
/// recorded unless the window is fullscreen.
pub open spec fn resized(config: Option<WindowConfig>, width: u32, height: u32) -> Option<
    WindowConfig,
> {
    match config {
        Some(c) => Some(
            if c.fullscreen {
                c
            } else {
                WindowConfig { width, height, ..c }
            },
        ),
        None => None,
    }
}

/// Whether the configuration says fullscreen; false when there is none.
pub open spec fn get_fullscreen_spec(config: Option<WindowConfig>) -> bool {
    match config {
        Some(c) => c.fullscreen,
        None => false,
    }
}

/// The configuration with fullscreen set to `fullscreen`, and the windowed size to restore
/// when that leaves fullscreen on.
pub open spec fn with_fullscreen(config: Option<WindowConfig>, fullscreen: bool) -> (
    Option<WindowConfig>,
    Option<(u32, u32)>,
) {
    match config {
        Some(c) => (
            Some(WindowConfig { fullscreen, ..c }),
            if fullscreen {
                None
            } else {
                Some((c.width, c.height))
            },
        ),
        None => (None, None),
    }
}

/// Records a new window size, unless the window is fullscreen (the windowed size is kept
/// for when it leaves fullscreen).
pub fn on_resize(config: &mut Option<WindowConfig>, width: u32, height: u32)
    ensures
        *final(config) == resized(*old(config), width, height),
{
    match *config {
        Some(c) => {
            if !c.fullscreen {
                *config = Some(WindowConfig { width, height, ..c });
            }
        },
        None => {},
    }
}

/// Whether the window is fullscreen; false when there is no configuration.
pub fn get_fullscreen(config: &Option<WindowConfig>) -> (r: bool)
    ensures
        r == get_fullscreen_spec(*config),
{
    match *config {
        Some(c) => c.fullscreen,
        None => false,
    }
}

/// Sets fullscreen on or off. Returns the window size to restore when leaving
/// fullscreen, `None` otherwise (and when there is no configuration).
pub fn set_fullscreen(config: &mut Option<WindowConfig>, fullscreen: bool) -> (r: Option<(u32, u32)>)
    ensures
        (*final(config), r) == with_fullscreen(*old(config), fullscreen),
{
    match *config {
        Some(c) => {
            *config = Some(WindowConfig { fullscreen, ..c });
            if !fullscreen {
                Some((c.width, c.height))
            } else {
                None
            }
        },
        None => None,
    }
}

/// Flips fullscreen. Returns the window size to restore when leaving fullscreen.
pub fn toggle_fullscreen(config: &mut Option<WindowConfig>) -> (r: Option<(u32, u32)>)
    ensures
        (*final(config), r) == with_fullscreen(*old(config), !get_fullscreen_spec(*old(config))),
{
    match *config {
        Some(c) => {
            *config = Some(WindowConfig { fullscreen: !c.fullscreen, ..c });
            if c.fullscreen {
                Some((c.width, c.height))
            } else {
                None
            }
        },
        None => None,
    }
}

/// Toggling fullscreen twice gives back the configuration it started from, and when the
/// window started out windowed, the second toggle hands back its windowed size.
pub proof fn lemma_toggle_twice(config: Option<WindowConfig>)
    ensures
        ({
            let (once, _) = with_fullscreen(config, !get_fullscreen_spec(config));
            let (twice, restore) = with_fullscreen(once, !get_fullscreen_spec(once));
            &&& twice == config
            &&& (config is Some && !config->Some_0.fullscreen ==> restore == Some(
                (config->Some_0.width, config->Some_0.height),
            ))
        }),
{
}

/// Resizing a fullscreen window does not lose its windowed size: going fullscreen, being
/// resized, then leaving fullscreen gives back the size the window had before.
pub proof fn lemma_fullscreen_keeps_windowed_size(c: WindowConfig, width: u32, height: u32)
    ensures
        ({
            let (full, _) = with_fullscreen(Some(c), true);
            let (windowed, restore) = with_fullscreen(resized(full, width, height), false);
            &&& restore == Some((c.width, c.height))
            &&& windowed == Some(WindowConfig { fullscreen: false, ..c })
        }),
{
}

/// Bytes in the small (16 by 16), medium (32 by 32) and large (64 by 64) RGBA icons.
pub const ICON_SMALL_SIZE: usize = 1024;

pub const ICON_MEDIUM_SIZE: usize = 4096;

pub const ICON_LARGE_SIZE: usize = 16384;

/// The RGBA data of a window icon at three sizes, one after another.
pub struct WindowIcon(pub Vec<u8>);

impl WindowIcon {
    /// The small, medium and large images. The data must hold exactly the three images.
    pub fn split(&self) -> (r: (Vec<u8>, Vec<u8>, Vec<u8>))
        requires
            self.0@.len() == ICON_SMALL_SIZE + ICON_MEDIUM_SIZE + ICON_LARGE_SIZE,
        ensures
            r.0@ == self.0@.subrange(0, ICON_SMALL_SIZE as int),
            r.1@ == self.0@.subrange(
                ICON_SMALL_SIZE as int,
                (ICON_SMALL_SIZE + ICON_MEDIUM_SIZE) as int,
            ),
            r.2@ == self.0@.subrange(
                (ICON_SMALL_SIZE + ICON_MEDIUM_SIZE) as int,
                self.0@.len() as int,
            ),
    {
        let mut small: Vec<u8> = Vec::new();
        let mut medium: Vec<u8> = Vec::new();
        let mut large: Vec<u8> = Vec::new();
        let mut i: usize = 0;
        while i < self.0.len()
            invariant
                self.0@.len() == ICON_SMALL_SIZE + ICON_MEDIUM_SIZE + ICON_LARGE_SIZE,
                i <= self.0@.len(),
                small@ == self.0@.subrange(0, if i < ICON_SMALL_SIZE { i as int } else { ICON_SMALL_SIZE as int }),
                medium@ == self.0@.subrange(
                    ICON_SMALL_SIZE as int,
                    if i < ICON_SMALL_SIZE {
                        ICON_SMALL_SIZE as int
                    } else if i < ICON_SMALL_SIZE + ICON_MEDIUM_SIZE {
                        i as int
                    } else {
                        (ICON_SMALL_SIZE + ICON_MEDIUM_SIZE) as int
                    },
                ),
                large@ == self.0@.subrange(
                    (ICON_SMALL_SIZE + ICON_MEDIUM_SIZE) as int,
                    if i < ICON_SMALL_SIZE + ICON_MEDIUM_SIZE {
                        (ICON_SMALL_SIZE + ICON_MEDIUM_SIZE) as int
                    } else {
                        i as int
                    },
                ),
            decreases self.0@.len() - i,
        {
            if i < ICON_SMALL_SIZE {
                small.push(self.0[i]);
            } else if i < ICON_SMALL_SIZE + ICON_MEDIUM_SIZE {
                medium.push(self.0[i]);
            } else {
                large.push(self.0[i]);
            }
            i += 1;
        }
        (small, medium, large)
    }
}

} // verus!
