use vstd::prelude::*;

verus! {

/// The logical playfield size: 11 by 15 cells of 64 units.
pub const LOGICAL_WIDTH: u32 = 64 * 11;

pub const LOGICAL_HEIGHT: u32 = 64 * 15;

/// Persisted user settings: window size, fullscreen choice and the highest
/// level reached. Reading and writing the settings file is the host's job;
/// this is the state and its rules.
#[derive(Clone, Copy, Debug, PartialEq, Eq, Structural)]
pub struct Config {
    width: u32,
    height: u32,
    fullscreen: bool,
    max_level: u32,
}

impl Config {
    pub closed spec fn spec_width(self) -> u32 {
        self.width
    }

    pub closed spec fn spec_height(self) -> u32 {
        self.height
    }

    pub closed spec fn spec_fullscreen(self) -> bool {
        self.fullscreen
    }

    pub closed spec fn spec_max_level(self) -> u32 {
        self.max_level
    }

    pub fn new_from_parts(width: u32, height: u32, fullscreen: bool, max_level: u32) -> (c:
        Config)
        ensures
            c.spec_width() == width,
            c.spec_height() == height,
            c.spec_fullscreen() == fullscreen,
            c.spec_max_level() == max_level,
    {
        Config { width, height, fullscreen, max_level }
    }

    pub fn width(&self) -> (w: u32)
        ensures
            w == self.spec_width(),
    {
        self.width
    }

    pub fn height(&self) -> (h: u32)
        ensures
            h == self.spec_height(),
    {
        self.height
    }

    pub fn set_full_screen(&mut self, fullscreen: bool)
        ensures
            final(self).spec_fullscreen() == fullscreen,
            final(self).spec_width() == old(self).spec_width(),
            final(self).spec_height() == old(self).spec_height(),
            final(self).spec_max_level() == old(self).spec_max_level(),
    {
        self.fullscreen = fullscreen;
    }

    pub fn fullscreen(&self) -> (b: bool)
        ensures
            b == self.spec_fullscreen(),
    {
        self.fullscreen
    }

    /// Raises the saved progress to `level` when it is higher; progress
    /// never goes down.
    pub fn increase_max_level(&mut self, level: u32)
        ensures
            final(self).spec_max_level() == if level > old(self).spec_max_level() {
                level
            } else {
                old(self).spec_max_level()
            },
            final(self).spec_max_level() >= old(self).spec_max_level(),
            final(self).spec_max_level() >= level,
            final(self).spec_width() == old(self).spec_width(),
            final(self).spec_height() == old(self).spec_height(),
            final(self).spec_fullscreen() == old(self).spec_fullscreen(),
    {
        if level > self.max_level {
            self.max_level = level;
        }
    }

    pub fn max_level(&self) -> (l: u32)
        ensures
            l == self.spec_max_level(),
    {
        self.max_level
    }
}

impl Default for Config {
    /// The defaults a fresh install starts from: the logical window size,
    /// windowed mode, and the first level.
    fn default() -> (c: Self)
        ensures
            c.spec_width() == LOGICAL_WIDTH,
            c.spec_height() == LOGICAL_HEIGHT,
            !c.spec_fullscreen(),
            c.spec_max_level() == 1,
    {
        Config { width: LOGICAL_WIDTH, height: LOGICAL_HEIGHT, fullscreen: false, max_level: 1 }
    }
}

} // verus!
