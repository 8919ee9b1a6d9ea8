//! The layout settings read from the configuration file.
use vstd::prelude::*;

verus! {

/// The layout section of the configuration: the gap between windows and
/// around the screen edge, in pixels, and the name of the layout
/// (`"dwindle"`; any other name, or none, selects the master-stack layout).
/// The master column's share of the screen width is a fraction that the
/// caller keeps beside this and turns into pixels (see `MasterSplit`).
pub struct LayoutConfig {
    pub gap_size: i32,
    pub layout_type: Option<String>,
}

/// The configuration.
pub struct Config {
    pub layout: LayoutConfig,
}

/// Whether the layout name selects the dwindle layout: it is the string
/// `"dwindle"`; an absent name counts as `"master"`.
pub open spec fn names_dwindle(layout_type: Option<String>) -> bool {
    match layout_type {
        Some(name) => name@ == "dwindle"@,
        None => false,
    }
}

/// The configuration used when no configuration file has been loaded:
/// a gap of 12 pixels and the dwindle layout.
pub open spec fn is_default_config(c: Config) -> bool {
    &&& c.layout.gap_size == 12
    &&& names_dwindle(c.layout.layout_type)
}

/// Law: the default configuration has a 12-pixel gap and the layout named
/// exactly `"dwindle"`; a named layout selects dwindle only for that exact
/// name, and no name selects master-stack.
pub proof fn law_default_and_names(c: Config, name: String)
    ensures
        is_default_config(c) ==> c.layout.gap_size == 12 && (c.layout.layout_type matches Some(s) && s@ == "dwindle"@),
        names_dwindle(Some(name)) <==> name@ == "dwindle"@,
        !names_dwindle(None),
{
}

impl Default for Config {
    fn default() -> (c: Config)
        ensures
            is_default_config(c),
    {
        let name = String::from_str("dwindle");
        proof {
            reveal_strlit("dwindle");
        }
        Config { layout: LayoutConfig { gap_size: 12, layout_type: Some(name) } }
    }
}

impl Clone for LayoutConfig {
    fn clone(&self) -> (c: LayoutConfig)
        ensures
            c.gap_size == self.gap_size,
            c.layout_type == self.layout_type,
    {
        let layout_type = match &self.layout_type {
            Some(name) => Some(name.clone()),
            None => None,
        };
        LayoutConfig { gap_size: self.gap_size, layout_type }
    }
}

impl Clone for Config {
    fn clone(&self) -> (c: Config)
        ensures
            c == *self,
    {
        Config { layout: self.layout.clone() }
    }
}

/// The configuration in force: the loaded one if any, else the default.
pub fn effective_config(loaded: &Option<Config>) -> (c: Config)
    ensures
        loaded matches Some(l) ==> c == l,
        loaded is None ==> is_default_config(c),
{
    match loaded {
        Some(l) => l.clone(),
        None => Config::default(),
    }
}

/// Whether the layout name selects the dwindle layout.
pub fn is_dwindle(layout_type: &Option<String>) -> (r: bool)
    ensures
        r == names_dwindle(*layout_type),
{
    match layout_type {
        Some(name) => {
            let dwindle = String::from_str("dwindle");
            *name == dwindle
        },
        None => false,
    }
}

} // verus!
