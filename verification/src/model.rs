//! The enumerations of the layer model and their names in storage.

use vstd::prelude::*;
use crate::text::str_eq;

verus! {

/// Blend mode for layer compositing.
#[derive(Debug, Clone, Copy, PartialEq, Eq, Structural)]
pub enum BlendMode {
    /// Normal alpha compositing.
    Normal,
    /// Multiply blend.
    Multiply,
    /// Screen blend.
    Screen,
    /// Overlay blend.
    Overlay,
    /// Darken blend.
    Darken,
    /// Lighten blend.
    Lighten,
    /// Subtract blend.
    Subtract,
    /// Additive blend.
    Add,
}

impl Default for BlendMode {
    fn default() -> (m: Self)
        ensures
            m == BlendMode::Normal,
    {
        BlendMode::Normal
    }
}

/// Fill type for a shape layer.
#[derive(Debug, Clone, Copy, PartialEq, Eq, Structural)]
pub enum FillType {
    /// No fill / transparent.
    NoFill,
    /// Filled with a media image.
    Media,
    /// Filled with a solid color.
    Color,
    /// Filled with a gradient.
    Gradient,
}

impl Default for FillType {
    fn default() -> (t: Self)
        ensures
            t == FillType::NoFill,
    {
        FillType::NoFill
    }
}

/// The name under which a blend mode is stored.
pub open spec fn blend_mode_name(mode: BlendMode) -> Seq<char> {
    match mode {
        BlendMode::Normal => "Normal"@,
        BlendMode::Multiply => "Multiply"@,
        BlendMode::Screen => "Screen"@,
        BlendMode::Overlay => "Overlay"@,
        BlendMode::Darken => "Darken"@,
        BlendMode::Lighten => "Lighten"@,
        BlendMode::Subtract => "Subtract"@,
        BlendMode::Add => "Add"@,
    }
}

/// The blend mode a stored name stands for: the mode whose name it is,
/// and `Normal` for any other text.
pub open spec fn blend_mode_of_name(s: Seq<char>) -> BlendMode {
    if s == "Multiply"@ {
        BlendMode::Multiply
    } else if s == "Screen"@ {
        BlendMode::Screen
    } else if s == "Overlay"@ {
        BlendMode::Overlay
    } else if s == "Darken"@ {
        BlendMode::Darken
    } else if s == "Lighten"@ {
        BlendMode::Lighten
    } else if s == "Subtract"@ {
        BlendMode::Subtract
    } else if s == "Add"@ {
        BlendMode::Add
    } else {
        BlendMode::Normal
    }
}

/// The name under which a fill type is stored.
pub open spec fn fill_type_name(t: FillType) -> Seq<char> {
    match t {
        FillType::NoFill => "None"@,
        FillType::Media => "Media"@,
        FillType::Color => "Color"@,
        FillType::Gradient => "Gradient"@,
    }
}

/// The fill type a stored name stands for: the type whose name it is,
/// and `None` for any other text.
pub open spec fn fill_type_of_name(s: Seq<char>) -> FillType {
    if s == "Media"@ {
        FillType::Media
    } else if s == "Color"@ {
        FillType::Color
    } else if s == "Gradient"@ {
        FillType::Gradient
    } else {
        FillType::NoFill
    }
}

/// Map a blend mode to its stored name.
pub fn blend_mode_to_str(mode: BlendMode) -> (s: &'static str)
    ensures
        s@ == blend_mode_name(mode),
{
    match mode {
        BlendMode::Normal => "Normal",
        BlendMode::Multiply => "Multiply",
        BlendMode::Screen => "Screen",
        BlendMode::Overlay => "Overlay",
        BlendMode::Darken => "Darken",
        BlendMode::Lighten => "Lighten",
        BlendMode::Subtract => "Subtract",
        BlendMode::Add => "Add",
    }
}

/// Map a stored name back to its blend mode.
pub fn str_to_blend_mode(s: &str) -> (mode: BlendMode)
    ensures
        mode == blend_mode_of_name(s@),
{
    if str_eq(s, "Multiply") {
        BlendMode::Multiply
    } else if str_eq(s, "Screen") {
        BlendMode::Screen
    } else if str_eq(s, "Overlay") {
        BlendMode::Overlay
    } else if str_eq(s, "Darken") {
        BlendMode::Darken
    } else if str_eq(s, "Lighten") {
        BlendMode::Lighten
    } else if str_eq(s, "Subtract") {
        BlendMode::Subtract
    } else if str_eq(s, "Add") {
        BlendMode::Add
    } else {
        BlendMode::Normal
    }
}

/// Map a fill type to its stored name.
pub fn fill_type_to_str(t: FillType) -> (s: &'static str)
    ensures
        s@ == fill_type_name(t),
{
    match t {
        FillType::NoFill => "None",
        FillType::Media => "Media",
        FillType::Color => "Color",
        FillType::Gradient => "Gradient",
    }
}

/// Map a stored name back to its fill type.
pub fn str_to_fill_type(s: &str) -> (t: FillType)
    ensures
        t == fill_type_of_name(s@),
{
    if str_eq(s, "Media") {
        FillType::Media
    } else if str_eq(s, "Color") {
        FillType::Color
    } else if str_eq(s, "Gradient") {
        FillType::Gradient
    } else {
        FillType::NoFill
    }
}

/// Storing a blend mode by name and reading the name back gives the same
/// mode.
pub proof fn lemma_blend_mode_name_round_trip(mode: BlendMode)
    ensures
        blend_mode_of_name(blend_mode_name(mode)) == mode,
{
    reveal_strlit("Normal");
    reveal_strlit("Multiply");
    reveal_strlit("Screen");
    reveal_strlit("Overlay");
    reveal_strlit("Darken");
    reveal_strlit("Lighten");
    reveal_strlit("Subtract");
    reveal_strlit("Add");
    // Names of equal length differ in their first or second character.
    assert("Normal"@[0] != "Screen"@[0]);
    assert("Normal"@[0] != "Darken"@[0]);
    assert("Screen"@[0] != "Darken"@[0]);
    assert("Multiply"@[0] != "Subtract"@[0]);
    assert("Overlay"@[0] != "Lighten"@[0]);
    assert("Normal"@.len() == 6);
    assert("Multiply"@.len() == 8);
    assert("Screen"@.len() == 6);
    assert("Overlay"@.len() == 7);
    assert("Darken"@.len() == 6);
    assert("Lighten"@.len() == 7);
    assert("Subtract"@.len() == 8);
    assert("Add"@.len() == 3);
}

/// Storing a fill type by name and reading the name back gives the same
/// type.
pub proof fn lemma_fill_type_name_round_trip(t: FillType)
    ensures
        fill_type_of_name(fill_type_name(t)) == t,
{
    reveal_strlit("None");
    reveal_strlit("Media");
    reveal_strlit("Color");
    reveal_strlit("Gradient");
    assert("None"@.len() == 4);
    assert("Media"@.len() == 5);
    assert("Color"@.len() == 5);
    assert("Gradient"@.len() == 8);
    assert("Media"@[0] != "Color"@[0]);
}

/// Distinct blend modes are stored under distinct names.
pub proof fn lemma_blend_mode_names_distinct(a: BlendMode, b: BlendMode)
    requires
        a != b,
    ensures
        blend_mode_name(a) != blend_mode_name(b),
{
    lemma_blend_mode_name_round_trip(a);
    lemma_blend_mode_name_round_trip(b);
}

/// Distinct fill types are stored under distinct names.
pub proof fn lemma_fill_type_names_distinct(a: FillType, b: FillType)
    requires
        a != b,
    ensures
        fill_type_name(a) != fill_type_name(b),
{
    lemma_fill_type_name_round_trip(a);
    lemma_fill_type_name_round_trip(b);
}

} // verus!
