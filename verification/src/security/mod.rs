//! Security and isolation
//!
//! This module provides security features to protect the host system and
//! isolate X11 clients from each other.
use vstd::prelude::*;

verus! {

/// Security policy configuration
#[derive(Debug, Clone, Copy, PartialEq, Eq, Structural)]
pub struct SecurityPolicy {
    /// Isolate window trees - clients can only see their own windows
    pub window_isolation: bool,
    /// Allow access to global selections (clipboard)
    pub allow_global_selections: bool,
    /// Allow keyboard grabs
    pub allow_keyboard_grabs: bool,
    /// Allow pointer grabs
    pub allow_pointer_grabs: bool,
    /// Maximum windows per client (0 = unlimited)
    pub max_windows_per_client: usize,
    /// Maximum pixmaps per client (0 = unlimited)
    pub max_pixmaps_per_client: usize,
}

impl Default for SecurityPolicy {
    /// The default policy: windows isolated, no global selections and no keyboard
    /// grabs, pointer grabs allowed, at most 1000 windows and 1000 pixmaps a client.
    fn default() -> (r: Self)
        ensures
            r == (SecurityPolicy {
                window_isolation: true,
                allow_global_selections: false,
                allow_keyboard_grabs: false,
                allow_pointer_grabs: true,
                max_windows_per_client: 1000,
                max_pixmaps_per_client: 1000,
            }),
    {
        SecurityPolicy {
            window_isolation: true,
            allow_global_selections: false,
            allow_keyboard_grabs: false,
            allow_pointer_grabs: true,
            max_windows_per_client: 1000,
            max_pixmaps_per_client: 1000,
        }
    }
}

impl SecurityPolicy {
    /// Create a permissive policy (for testing): everything allowed, no limits.
    pub fn permissive() -> (r: Self)
        ensures
            r == (SecurityPolicy {
                window_isolation: false,
                allow_global_selections: true,
                allow_keyboard_grabs: true,
                allow_pointer_grabs: true,
                max_windows_per_client: 0,
                max_pixmaps_per_client: 0,
            }),
    {
        SecurityPolicy {
            window_isolation: false,
            allow_global_selections: true,
            allow_keyboard_grabs: true,
            allow_pointer_grabs: true,
            max_windows_per_client: 0,
            max_pixmaps_per_client: 0,
        }
    }

    /// Create a strict policy (maximum security): windows isolated, no global
    /// selections, no grabs, at most 100 windows and 100 pixmaps a client.
    pub fn strict() -> (r: Self)
        ensures
            r == (SecurityPolicy {
                window_isolation: true,
                allow_global_selections: false,
                allow_keyboard_grabs: false,
                allow_pointer_grabs: false,
                max_windows_per_client: 100,
                max_pixmaps_per_client: 100,
            }),
    {
        SecurityPolicy {
            window_isolation: true,
            allow_global_selections: false,
            allow_keyboard_grabs: false,
            allow_pointer_grabs: false,
            max_windows_per_client: 100,
            max_pixmaps_per_client: 100,
        }
    }
}

} // verus!
