//! The colour theme: what `/theme` asks for and what it answers.

use crate::text::{appended, same_text, texts};
use vstd::prelude::*;

verus! {

/// What subscribers are told after the theme changed.
pub struct ThemeChangedPayload {
    pub theme: String,
}

impl Clone for ThemeChangedPayload {
    fn clone(&self) -> (r: Self)
        ensures
            r.theme@ == self.theme@,
    {
        ThemeChangedPayload { theme: self.theme.clone() }
    }
}

/// The theme that is used where none was chosen.
pub open spec fn default_theme() -> Seq<char> {
    "dark"@
}

/// What `/theme` asks for.
pub enum ThemeStep {
    /// Set the theme `theme` and answer `reply`.
    Choose { theme: String, reply: String },
    /// Read the current theme and go on with `theme_toggled`.
    Toggle,
    /// Answer with the refusal.
    Refuse(String),
}

/// The mathematical value of a `ThemeStep`.
pub enum ThemeStepView {
    Choose { theme: Seq<char>, reply: Seq<char> },
    Toggle,
    Refuse(Seq<char>),
}

impl View for ThemeStep {
    type V = ThemeStepView;

    open spec fn view(&self) -> ThemeStepView {
        match self {
            ThemeStep::Choose { theme, reply } => ThemeStepView::Choose { theme: theme@, reply: reply@ },
            ThemeStep::Toggle => ThemeStepView::Toggle,
            ThemeStep::Refuse(text) => ThemeStepView::Refuse(text@),
        }
    }
}

/// What `/theme` asks for, by its words.
pub open spec fn theme_step(parts: Seq<Seq<char>>) -> ThemeStepView {
    if parts.len() < 2 {
        ThemeStepView::Refuse("usage: /theme [dark|light|toggle]"@)
    } else if parts[1] == "dark"@ {
        ThemeStepView::Choose { theme: "dark"@, reply: "theme set to dark"@ }
    } else if parts[1] == "light"@ {
        ThemeStepView::Choose { theme: "light"@, reply: "theme set to light"@ }
    } else if parts[1] == "toggle"@ {
        ThemeStepView::Toggle
    } else {
        ThemeStepView::Refuse(
            "unknown /theme argument '"@ + parts[1] + "'. use dark, light, or toggle."@,
        )
    }
}

/// `/theme`: reads the second word as `dark`, `light` or `toggle`.
pub fn command_theme(parts: &Vec<String>) -> (step: ThemeStep)
    ensures
        step@ == theme_step(texts(parts@)),
{
    if parts.len() < 2 {
        return ThemeStep::Refuse(String::from_str("usage: /theme [dark|light|toggle]"));
    }
    let arg = parts[1].as_str();
    if same_text(arg, "dark") {
        ThemeStep::Choose {
            theme: String::from_str("dark"),
            reply: String::from_str("theme set to dark"),
        }
    } else if same_text(arg, "light") {
        ThemeStep::Choose {
            theme: String::from_str("light"),
            reply: String::from_str("theme set to light"),
        }
    } else if same_text(arg, "toggle") {
        ThemeStep::Toggle
    } else {
        let mut text = appended("unknown /theme argument '", arg);
        text.append("'. use dark, light, or toggle.");
        ThemeStep::Refuse(text)
    }
}

/// The other theme: `light` for `dark`, and `dark` for everything else.
pub open spec fn other_theme(current: Seq<char>) -> Seq<char> {
    if current == "dark"@ {
        "light"@
    } else {
        "dark"@
    }
}

/// The second step of a toggle, once the current theme was read: the theme
/// to set and the answer to give after it was set, or the refusal where the
/// theme could not be read.
pub fn theme_toggled(current: Result<String, String>) -> (r: Result<(String, String), String>)
    ensures
        match current {
            Ok(theme) => r is Ok && r->Ok_0.0@ == other_theme(theme@) && r->Ok_0.1@
                == "theme toggled to "@ + other_theme(theme@),
            Err(reason) => r is Err && r->Err_0@ == "couldn't read theme: "@ + reason@,
        },
{
    match current {
        Ok(theme) => {
            let other = if same_text(theme.as_str(), "dark") {
                "light"
            } else {
                "dark"
            };
            Ok((String::from_str(other), appended("theme toggled to ", other)))
        },
        Err(reason) => Err(appended("couldn't read theme: ", reason.as_str())),
    }
}

/// The theme in use, given what the settings hold.
pub fn theme_or_default(stored: Option<String>) -> (theme: String)
    ensures
        theme@ == (match stored {
            Some(t) => t@,
            None => default_theme(),
        }),
{
    match stored {
        Some(theme) => theme,
        None => String::from_str("dark"),
    }
}

} // verus!
