//! Which colour theme the browser uses: `NO_COLOR` disables colours, else
//! `S3TUI_THEME`, else the configured theme, else the default; an ID that is
//! not one of `ratatui-themekit`'s built-in themes falls back to the default.
use vstd::prelude::*;
use crate::config::{opt_view, first_of};
use crate::text::same_text;

verus! {

broadcast use vstd::string::group_string_axioms;

/// Theme ID used when nothing else is configured.
pub const DEFAULT_THEME_ID: &'static str = "catppuccin";

/// IDs of `ratatui-themekit`'s built-in themes, in its registry order.
pub open spec fn builtin_ids() -> Seq<Seq<char>> {
    seq![
        "catppuccin"@,
        "dracula"@,
        "nord"@,
        "gruvbox"@,
        "one-dark"@,
        "solarized"@,
        "tailwind"@,
        "tokyo-night"@,
        "rose-pine"@,
        "terminal"@,
    ]
}

/// The strings as character sequences.
pub open spec fn strs_view(v: Seq<String>) -> Seq<Seq<char>> {
    v.map_values(|s: String| s@)
}

/// Calls `ratatui_themekit::available_theme_ids()`: the IDs of the entries of
/// its `BUILTIN_THEMES` registry, in order, which its source lists.
#[verifier::external_body]
fn builtin_theme_ids() -> (r: Vec<String>)
    ensures
        strs_view(r@) == builtin_ids(),
{
    ratatui_themekit::available_theme_ids().into_iter().map(|s| s.to_string()).collect()
}

/// The theme to draw with.
#[derive(Debug)]
pub enum ThemeChoice {
    /// Colours disabled.
    NoColor,
    /// The built-in theme at this position of the registry.
    Builtin(usize),
    /// The requested ID is not a built-in theme: the default theme is used.
    Fallback(String),
}

/// The first position of `id` among the built-in IDs.
pub open spec fn first_position(id: Seq<char>, i: int) -> bool {
    &&& 0 <= i < builtin_ids().len()
    &&& builtin_ids()[i] == id
    &&& forall|k: int| 0 <= k < i ==> builtin_ids()[k] != id
}

/// The theme ID asked for: `S3TUI_THEME`, else the configured one, else the
/// default.
pub open spec fn requested_theme(env_theme: Option<String>, config_theme: Option<String>) -> Seq<char> {
    match first_of(opt_view(env_theme), opt_view(config_theme)) {
        Some(id) => id,
        None => DEFAULT_THEME_ID@,
    }
}

/// Position of `id` in the built-in registry, if it is there.
pub fn theme_index(id: &str) -> (r: Option<usize>)
    ensures
        r matches Some(i) ==> first_position(id@, i as int),
        r is None ==> !builtin_ids().contains(id@),
{
    let ids = builtin_theme_ids();
    let mut i: usize = 0;
    while i < ids.len()
        invariant
            i <= ids@.len(),
            strs_view(ids@) == builtin_ids(),
            forall|k: int| 0 <= k < i ==> builtin_ids()[k] != id@,
        decreases ids@.len() - i,
    {
        assert(strs_view(ids@)[i as int] == ids@[i as int]@);
        if same_text(ids[i].as_str(), id) {
            return Some(i);
        }
        i += 1;
    }
    proof {
        if builtin_ids().contains(id@) {
            let k = choose|k: int| 0 <= k < builtin_ids().len() && builtin_ids()[k] == id@;
            assert(builtin_ids()[k] != id@);
        }
    }
    None
}

/// The theme to draw with: none when `no_color` (the `NO_COLOR` variable is
/// set), else the requested ID's built-in theme, else a fallback to the
/// default theme naming the unknown ID.
pub fn choose_theme(no_color: bool, env_theme: Option<String>, config_theme: Option<String>) -> (r: ThemeChoice)
    ensures
        no_color ==> r is NoColor,
        !no_color ==> match r {
            ThemeChoice::NoColor => false,
            ThemeChoice::Builtin(i) => first_position(requested_theme(env_theme, config_theme), i as int),
            ThemeChoice::Fallback(id) => id@ == requested_theme(env_theme, config_theme)
                && !builtin_ids().contains(id@),
        },
{
    if no_color {
        return ThemeChoice::NoColor;
    }
    let id = match env_theme {
        Some(t) => t,
        None => match config_theme {
            Some(t) => t,
            None => DEFAULT_THEME_ID.to_string(),
        },
    };
    match theme_index(id.as_str()) {
        Some(i) => ThemeChoice::Builtin(i),
        None => ThemeChoice::Fallback(id),
    }
}

/// Law: the default theme ID is a built-in theme, the first of the registry.
pub proof fn lemma_default_theme_is_builtin()
    ensures
        first_position(DEFAULT_THEME_ID@, 0),
{
}

} // verus!
