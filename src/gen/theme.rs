use vstd::prelude::*;
use vstd::string::StringExecFns;

verus! {

/// The stylesheet of the default theme.
pub const DEFAULT_THEME_CSS: &'static str = "body { margin: 0; font-family: sans-serif; color: #222; }
.sidebar { position: fixed; top: 0; left: 0; width: 14em; height: 100%; overflow: auto; padding: 1em; background: #f4f4f4; }
.sidebar-head a, .section-head { color: inherit; text-decoration: none; }
.sidebar-item { list-style: none; }
.main { margin-left: 17em; padding: 1em 2em; }
.block { margin: 1em 0; }
.sub code { font-size: 1.1em; }
table { border-collapse: collapse; }
th, td { border: 1px solid #ccc; padding: 0.3em 0.6em; text-align: left; }";

/// The themes that a page can be styled with.
pub enum Theme {
    Default,
}

impl Theme {
    /// The stylesheet of the theme.
    pub open spec fn css(&self) -> Seq<char> {
        match self {
            Theme::Default => DEFAULT_THEME_CSS@,
        }
    }

    /// The theme's name.
    pub open spec fn spec_name(&self) -> Seq<char> {
        match self {
            Theme::Default => "default"@,
        }
    }

    /// The stylesheet of the theme.
    pub fn get(&self) -> (r: String)
        ensures
            r@ == self.css(),
    {
        match self {
            Theme::Default => String::from_str(DEFAULT_THEME_CSS),
        }
    }

    pub fn name(&self) -> (r: &str)
        ensures
            r@ == self.spec_name(),
    {
        match self {
            Theme::Default => "default",
        }
    }
}

} // verus!
