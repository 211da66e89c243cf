//! Backend implementations
//!
//! This module contains the backend trait, the null backend, and the logic of the
//! X11, Windows and macOS backends.
use vstd::prelude::*;

pub mod traits;
pub mod null;
pub mod x11;
pub mod x11_requests;
pub mod x11_session;
pub mod x11_readback;
pub mod macos;
pub mod windows;

use crate::cli::{name_texts, Platform};

verus! {

/// The backends that a build of the library enables (the `backend-*` features).
#[derive(Debug, Clone, Copy, PartialEq, Eq, Structural)]
pub struct EnabledBackends {
    pub x11: bool,
    pub wayland: bool,
    pub macos: bool,
    pub windows: bool,
}

/// The backends enabled by default: X11 and Wayland on Linux and the other Unix
/// systems, the native one on macOS and on Windows, none elsewhere.
pub open spec fn default_backends(platform: Platform) -> EnabledBackends {
    EnabledBackends {
        x11: platform == Platform::Linux || platform == Platform::Unix,
        wayland: platform == Platform::Linux || platform == Platform::Unix,
        macos: platform == Platform::MacOS,
        windows: platform == Platform::Windows,
    }
}

impl EnabledBackends {
    /// The backends enabled by default on `platform` (see `default_backends`).
    pub fn defaults_for(platform: Platform) -> (r: Self)
        ensures
            r == default_backends(platform),
    {
        let unix_like = platform == Platform::Linux || platform == Platform::Unix;
        EnabledBackends {
            x11: unix_like,
            wayland: unix_like,
            macos: platform == Platform::MacOS,
            windows: platform == Platform::Windows,
        }
    }
}

/// Whether `platform` is a Unix system.
pub open spec fn is_unix(platform: Platform) -> bool {
    platform == Platform::Linux || platform == Platform::MacOS || platform == Platform::Unix
}

/// The names of the backends available on `platform` with `enabled`, in this order:
/// X11 where enabled on a Unix system, Wayland where enabled on Linux, the macOS
/// backend where enabled on macOS, the Windows backend where enabled on Windows.
pub open spec fn backends_for(platform: Platform, enabled: EnabledBackends) -> Seq<Seq<char>> {
    (if enabled.x11 && is_unix(platform) {
        seq!["x11"@]
    } else {
        Seq::empty()
    }) + (if enabled.wayland && platform == Platform::Linux {
        seq!["wayland"@]
    } else {
        Seq::empty()
    }) + (if enabled.macos && platform == Platform::MacOS {
        seq!["macos"@]
    } else {
        Seq::empty()
    }) + (if enabled.windows && platform == Platform::Windows {
        seq!["windows"@]
    } else {
        Seq::empty()
    })
}

/// Get available backend names (features enabled + platform compatible), see
/// `backends_for`.
pub fn available_backends(platform: Platform, enabled: EnabledBackends) -> (r: Vec<&'static str>)
    ensures
        name_texts(r@) == backends_for(platform, enabled),
{
    let mut backends: Vec<&'static str> = Vec::new();
    let unix = platform == Platform::Linux || platform == Platform::MacOS || platform
        == Platform::Unix;
    // X11 backend is available on Unix systems when feature is enabled
    if enabled.x11 && unix {
        backends.push("x11");
    }
    let ghost after_x11 = backends@;
    // Wayland backend is available on Linux when feature is enabled
    if enabled.wayland && platform == Platform::Linux {
        backends.push("wayland");
    }
    let ghost after_wayland = backends@;
    // macOS backend is available on macOS when feature is enabled
    if enabled.macos && platform == Platform::MacOS {
        backends.push("macos");
    }
    let ghost after_macos = backends@;
    // Windows backend is available on Windows when feature is enabled
    if enabled.windows && platform == Platform::Windows {
        backends.push("windows");
    }
    assert(name_texts(backends@) =~= backends_for(platform, enabled));
    backends
}

} // verus!
