//! The colour themes that a display of the construction can take.

use vstd::prelude::*;

verus! {

/// A colour theme.
#[derive(Debug, Clone, Copy, PartialEq, Eq, Structural)]
pub enum ThemeMode {
    Light,
    Dark,
}

impl ThemeMode {
    /// The name of the theme as a selection list shows it.
    pub open spec fn name(self) -> Seq<char> {
        match self {
            ThemeMode::Light => "Light"@,
            ThemeMode::Dark => "Dark"@,
        }
    }

    /// The name of the theme.
    pub fn value(&self) -> (res: String)
        ensures
            res@ == self.name(),
    {
        match *self {
            ThemeMode::Light => "Light".to_owned(),
            ThemeMode::Dark => "Dark".to_owned(),
        }
    }

    /// Every theme, in the order in which a selection list offers them.
    pub fn as_vec() -> (res: Vec<Self>)
        ensures
            res@ == seq![ThemeMode::Light, ThemeMode::Dark],
    {
        let res: Vec<Self> = vec![Self::Light, Self::Dark];
        assert(res@ =~= seq![ThemeMode::Light, ThemeMode::Dark]);
        res
    }
}

/// The two themes bear different names.
pub proof fn lemma_names_differ()
    ensures
        ThemeMode::Light.name() != ThemeMode::Dark.name(),
{
    reveal_strlit("Light");
    reveal_strlit("Dark");
    assert("Light"@.len() == 5);
    assert("Dark"@.len() == 4);
}

} // verus!
