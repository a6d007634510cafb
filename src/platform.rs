use vstd::prelude::*;

use crate::text::{lower_of, str_eq, to_lower};

verus! {

/// An operating system that builds are made for.
#[derive(Debug, Clone, Copy, PartialEq, Eq, Structural)]
pub enum Platform {
    Android,
    IOS,
    Windows,
    Mac,
    RaspberryPi,
    Linux,
}

/// The name under which a platform is written, in cache file names among
/// other places.
pub open spec fn platform_name(p: Platform) -> Seq<char> {
    match p {
        Platform::Android => "Android"@,
        Platform::IOS => "iOS"@,
        Platform::Windows => "Windows"@,
        Platform::Mac => "macOS"@,
        Platform::RaspberryPi => "rpi"@,
        Platform::Linux => "Linux"@,
    }
}

/// The platform that a lowercase configuration name stands for.
pub open spec fn platform_of_lower_name(l: Seq<char>) -> Option<Platform> {
    if l == "android"@ {
        Some(Platform::Android)
    } else if l == "ios"@ {
        Some(Platform::IOS)
    } else if l == "windows"@ {
        Some(Platform::Windows)
    } else if l == "mac"@ || l == "macos"@ {
        Some(Platform::Mac)
    } else if l == "rpi"@ {
        Some(Platform::RaspberryPi)
    } else if l == "linux"@ {
        Some(Platform::Linux)
    } else {
        None
    }
}

/// The platform of an operating-system name as Rust's target names it.
pub open spec fn platform_of_os(os: Seq<char>) -> Option<Platform> {
    if os == "windows"@ {
        Some(Platform::Windows)
    } else if os == "macos"@ {
        Some(Platform::Mac)
    } else if os == "linux"@ {
        Some(Platform::Linux)
    } else if os == "android"@ {
        Some(Platform::Android)
    } else if os == "ios"@ {
        Some(Platform::IOS)
    } else {
        None
    }
}

impl Platform {
    /// The display name of this platform.
    pub fn name(&self) -> (r: &'static str)
        ensures
            r@ == platform_name(*self),
    {
        match self {
            Platform::Android => "Android",
            Platform::IOS => "iOS",
            Platform::Windows => "Windows",
            Platform::Mac => "macOS",
            Platform::RaspberryPi => "rpi",
            Platform::Linux => "Linux",
        }
    }

    /// The platform that a configuration name stands for, in any case.
    pub fn from_name(s: &str) -> (r: Option<Platform>)
        ensures
            r == platform_of_lower_name(lower_of(s@)),
    {
        let l = to_lower(s);
        let l = l.as_str();
        if str_eq(l, "android") {
            Some(Platform::Android)
        } else if str_eq(l, "ios") {
            Some(Platform::IOS)
        } else if str_eq(l, "windows") {
            Some(Platform::Windows)
        } else if str_eq(l, "mac") || str_eq(l, "macos") {
            Some(Platform::Mac)
        } else if str_eq(l, "rpi") {
            Some(Platform::RaspberryPi)
        } else if str_eq(l, "linux") {
            Some(Platform::Linux)
        } else {
            None
        }
    }

    /// The platform of the operating system named `os` (as in
    /// `std::env::consts::OS`); `None` for one that has no builds.
    pub fn platform_for_current_platform(os: &str) -> (r: Option<Platform>)
        ensures
            r == platform_of_os(os@),
    {
        if str_eq(os, "windows") {
            Some(Platform::Windows)
        } else if str_eq(os, "macos") {
            Some(Platform::Mac)
        } else if str_eq(os, "linux") {
            Some(Platform::Linux)
        } else if str_eq(os, "android") {
            Some(Platform::Android)
        } else if str_eq(os, "ios") {
            Some(Platform::IOS)
        } else {
            None
        }
    }
}

} // verus!
