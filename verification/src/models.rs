//! Small value types shared by the processes.

use crate::clock::now_millis;
use crate::ident::{fresh_id, is_random_id};
use vstd::prelude::*;

verus! {

/// A pet that the user has made.
#[derive(Debug, Clone)]
pub struct Pet {
    /// What tells this pet from every other.
    pub id: u128,
    pub name: String,
    pub description: String,
    /// The path of the pet's model file.
    pub model_path: String,
    /// When the pet was made, in milliseconds since the Unix epoch.
    pub created_at: i64,
}

impl Pet {
    /// A pet made now, under an identifier drawn for it.
    #[must_use]
    pub fn new(name: String, description: String, model_path: String) -> (r: Self)
        ensures
            r.name == name,
            r.description == description,
            r.model_path == model_path,
            is_random_id(r.id),
    {
        Pet::with_id(fresh_id(), name, description, model_path, now_millis())
    }

    /// The pet with these members.
    #[must_use]
    pub fn with_id(
        id: u128,
        name: String,
        description: String,
        model_path: String,
        created_at: i64,
    ) -> (r: Self)
        ensures
            r == (Pet { id, name, description, model_path, created_at }),
    {
        Pet { id, name, description, model_path, created_at }
    }
}

/// Position of a window on the screen, in pixels.
#[derive(Debug, Clone, Copy, PartialEq, Eq, Structural)]
pub struct WindowPosition {
    pub x: i32,
    pub y: i32,
}

/// Size of a window, in pixels.
#[derive(Debug, Clone, Copy, PartialEq, Eq, Structural)]
pub struct WindowSize {
    pub width: u32,
    pub height: u32,
}

impl WindowSize {
    #[must_use]
    pub fn new(width: u32, height: u32) -> (r: Self)
        ensures
            r.width == width,
            r.height == height,
    {
        WindowSize { width, height }
    }
}

impl WindowPosition {
    #[must_use]
    pub fn new(x: i32, y: i32) -> (r: Self)
        ensures
            r.x == x,
            r.y == y,
    {
        WindowPosition { x, y }
    }
}

impl Default for WindowPosition {
    fn default() -> (r: Self)
        ensures
            r == (WindowPosition { x: 0, y: 0 }),
    {
        WindowPosition { x: 0, y: 0 }
    }
}

impl Default for WindowSize {
    fn default() -> (r: Self)
        ensures
            r == (WindowSize { width: 0, height: 0 }),
    {
        WindowSize { width: 0, height: 0 }
    }
}

} // verus!
