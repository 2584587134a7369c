//! Keyboard input as the navigation logic reads it, and key comparison.

use vstd::prelude::*;
use vstd::laws_eq::obeys_concrete_eq;

verus! {

/// The keys that list, tree and autocomplete surfaces respond to.
#[derive(Copy, Clone, Debug, PartialEq, Eq, Structural)]
pub enum NavKey {
    /// Arrow up.
    ArrowUp,
    /// Arrow down.
    ArrowDown,
    /// Arrow left.
    ArrowLeft,
    /// Arrow right.
    ArrowRight,
    /// Home.
    Home,
    /// End.
    End,
    /// Enter.
    Enter,
    /// The space character.
    Space,
    /// Escape.
    Escape,
    /// Any other key.
    Other,
}

/// One keyboard event: which key, and whether it went down.
#[derive(Copy, Clone, Debug, PartialEq, Eq, Structural)]
pub struct KeyboardInput {
    /// The key.
    pub key: NavKey,
    /// `true` for a key press, `false` for a release.
    pub is_down: bool,
}

impl KeyboardInput {
    /// A key press.
    pub fn key_down(key: NavKey) -> (e: Self)
        ensures
            e.key == key,
            e.is_down,
    {
        KeyboardInput { key, is_down: true }
    }

    /// A key release.
    pub fn key_up(key: NavKey) -> (e: Self)
        ensures
            e.key == key,
            !e.is_down,
    {
        KeyboardInput { key, is_down: false }
    }
}

/// Compares two keys whose `==` agrees with equality of values.
pub fn same_key<K: PartialEq>(a: &K, b: &K) -> (r: bool)
    requires
        obeys_concrete_eq::<K>(),
    ensures
        r == (*a == *b),
{
    proof {
        reveal(obeys_concrete_eq);
    }
    *a == *b
}

/// Whether `o` holds `k`.
pub fn holds_key<K: PartialEq>(o: &Option<K>, k: &K) -> (r: bool)
    requires
        obeys_concrete_eq::<K>(),
    ensures
        r == (*o == Some(*k)),
{
    match o {
        Some(x) => same_key(x, k),
        None => false,
    }
}

} // verus!
