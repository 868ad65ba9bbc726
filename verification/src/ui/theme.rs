//! Dark and light.
use crate::text::{same_text, str_view};
use vstd::prelude::*;

verus! {

/// The key under which the browser keeps the chosen scheme.
pub const STORAGE_KEY: &'static str = "proteus-color-scheme";

/// The colours of the console.
#[derive(Debug, Clone, Copy, PartialEq, Eq, Structural)]
pub enum ColorScheme {
    Dark,
    Light,
}

/// The scheme of that id, if there is one.
pub open spec fn scheme_of(id: Seq<char>) -> Option<ColorScheme> {
    if id == "dark"@ {
        Some(ColorScheme::Dark)
    } else if id == "light"@ {
        Some(ColorScheme::Light)
    } else {
        None
    }
}

impl ColorScheme {
    /// The name under which the scheme is stored and applied.
    pub open spec fn text(self) -> Seq<char> {
        match self {
            ColorScheme::Dark => "dark"@,
            ColorScheme::Light => "light"@,
        }
    }

    /// The name under which the scheme is stored and applied.
    pub fn id(self) -> (res: &'static str)
        ensures
            res@ == self.text(),
    {
        match self {
            ColorScheme::Dark => "dark",
            ColorScheme::Light => "light",
        }
    }

    /// The scheme of that id, if there is one.
    pub fn from_id(id: &str) -> (res: Option<Self>)
        ensures
            res == scheme_of(id@),
    {
        if same_text(id, "dark") {
            Some(ColorScheme::Dark)
        } else if same_text(id, "light") {
            Some(ColorScheme::Light)
        } else {
            None
        }
    }

    /// The other scheme.
    pub open spec fn other(self) -> ColorScheme {
        match self {
            ColorScheme::Dark => ColorScheme::Light,
            ColorScheme::Light => ColorScheme::Dark,
        }
    }

    /// The other scheme.
    pub fn toggle(self) -> (res: Self)
        ensures
            res == self.other(),
    {
        match self {
            ColorScheme::Dark => ColorScheme::Light,
            ColorScheme::Light => ColorScheme::Dark,
        }
    }
}

/// The scheme to start with, given what is stored and whether the system prefers light: the stored
/// one, else the system's, else dark.
pub fn load_color_scheme(stored: Option<&str>, prefers_light: Option<bool>) -> (res: ColorScheme)
    ensures
        res == (match str_view(stored) {
            Some(id) if scheme_of(id) is Some => scheme_of(id)->0,
            _ => match prefers_light {
                Some(true) => ColorScheme::Light,
                _ => ColorScheme::Dark,
            },
        }),
{
    if let Some(id) = stored {
        if let Some(scheme) = ColorScheme::from_id(id) {
            return scheme;
        }
    }
    match prefers_light {
        Some(true) => ColorScheme::Light,
        _ => ColorScheme::Dark,
    }
}

/// A stored scheme is read back as it was chosen.
pub proof fn law_scheme_survives_storage(scheme: ColorScheme)
    ensures
        scheme_of(scheme.text()) == Some(scheme),
{
    reveal_strlit("dark");
    reveal_strlit("light");
    assert("dark"@.len() == 4 && "light"@.len() == 5);
}

/// Toggling changes the scheme, and toggling twice changes nothing.
pub proof fn law_toggle_is_an_involution(scheme: ColorScheme)
    ensures
        scheme.other() != scheme,
        scheme.other().other() == scheme,
{
}

} // verus!
