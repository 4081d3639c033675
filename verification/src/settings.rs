//! The settings of the engine: the resolution of the screen and the language.

use crate::ssbo::{push_u32, u32_bytes, ISSBO};
use vstd::prelude::*;

verus! {

/// Width of the screen where no settings are given.
pub const DEFAULT_WIDTH: u32 = 800;

/// Height of the screen where no settings are given.
pub const DEFAULT_HEIGHT: u32 = 600;

pub struct Settings {
    core: SettingsCore,
}

pub struct SettingsCore {
    pub resolution: (u32, u32),
    pub language: String,
}

impl ISSBO for SettingsCore {
    /// The settings buffer holds the resolution: width, then height.
    open spec fn gpu_bytes(&self) -> Seq<u8> {
        u32_bytes(self.resolution.0) + u32_bytes(self.resolution.1)
    }

    fn gpu_format(&self) -> (r: Vec<u8>) {
        let mut out: Vec<u8> = Vec::new();
        push_u32(&mut out, self.resolution.0);
        push_u32(&mut out, self.resolution.1);
        out
    }
}

impl Settings {
    /// Resolution of the screen.
    pub closed spec fn spec_resolution(&self) -> (u32, u32) {
        self.core.resolution
    }

    /// Name of the language.
    pub closed spec fn spec_language(&self) -> Seq<char> {
        self.core.language@
    }

    /// The settings that were read, or the defaults where none could be read.
    pub fn load(read: Option<SettingsCore>) -> (r: Settings)
        ensures
            match read {
                Some(core) => r.spec_resolution() == core.resolution && r.spec_language()
                    == core.language@,
                None => r.spec_resolution() == (DEFAULT_WIDTH, DEFAULT_HEIGHT) && r.spec_language()
                    == "en_GB"@,
            },
    {
        let core = match read {
            Some(core) => core,
            None => Settings::default(),
        };
        Settings { core }
    }

    /// A screen of 800 by 600 and British English.
    pub fn default() -> (r: SettingsCore)
        ensures
            r.resolution == (DEFAULT_WIDTH, DEFAULT_HEIGHT),
            r.language@ == "en_GB"@,
    {
        SettingsCore { resolution: (DEFAULT_WIDTH, DEFAULT_HEIGHT), language: "en_GB".to_owned() }
    }

    /// The content of the settings buffer.
    pub fn copy_to_gpu(&self) -> (r: Vec<u8>)
        ensures
            r@ == u32_bytes(self.spec_resolution().0) + u32_bytes(self.spec_resolution().1),
    {
        self.core.gpu_format()
    }

    pub fn resolution(&self) -> (r: &(u32, u32))
        ensures
            *r == self.spec_resolution(),
    {
        &self.core.resolution
    }

    pub fn language(&self) -> (r: &String)
        ensures
            r@ == self.spec_language(),
    {
        &self.core.language
    }
}

} // verus!
