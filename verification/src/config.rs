//! The settings that a user may keep for the toolbox: a default mode for the
//! organizer and its custom rules.
//!
//! Reading the settings file is the caller's part; these are the values it is
//! read into.

use vstd::prelude::*;

verus! {

/// A custom rule of the organizer: files whose name matches the glob
/// `pattern` go to `target_dir`, a path below the directory being organized.
#[derive(Debug)]
pub struct OrganizeRule {
    pub pattern: String,
    pub target_dir: String,
}

/// An [`OrganizeRule`] as a plain value.
pub struct OrganizeRuleView {
    pub pattern: Seq<char>,
    pub target_dir: Seq<char>,
}

impl View for OrganizeRule {
    type V = OrganizeRuleView;

    open spec fn view(&self) -> OrganizeRuleView {
        OrganizeRuleView { pattern: self.pattern@, target_dir: self.target_dir@ }
    }
}

impl DeepView for OrganizeRule {
    type V = OrganizeRuleView;

    open spec fn deep_view(&self) -> OrganizeRuleView {
        self@
    }
}

/// The organizer's settings. The order of the rules is their priority: the
/// first rule that matches a file decides where it goes.
#[derive(Debug)]
pub struct OrganizeConfig {
    pub default_mode: Option<String>,
    pub custom_rules: Option<Vec<OrganizeRule>>,
}

/// An [`OrganizeConfig`] as a plain value.
pub struct OrganizeConfigView {
    pub default_mode: Option<Seq<char>>,
    pub custom_rules: Option<Seq<OrganizeRuleView>>,
}

impl View for OrganizeConfig {
    type V = OrganizeConfigView;

    open spec fn view(&self) -> OrganizeConfigView {
        OrganizeConfigView {
            default_mode: self.default_mode.deep_view(),
            custom_rules: self.custom_rules.deep_view(),
        }
    }
}

impl DeepView for OrganizeConfig {
    type V = OrganizeConfigView;

    open spec fn deep_view(&self) -> OrganizeConfigView {
        self@
    }
}

impl Default for OrganizeConfig {
    /// Settings that set nothing.
    fn default() -> (config: Self)
        ensures
            config@.default_mode is None,
            config@.custom_rules is None,
    {
        OrganizeConfig { default_mode: None, custom_rules: None }
    }
}

/// All settings of the toolbox.
#[derive(Debug)]
pub struct ToolboxConfig {
    pub organize: Option<OrganizeConfig>,
}

/// A [`ToolboxConfig`] as a plain value.
pub struct ToolboxConfigView {
    pub organize: Option<OrganizeConfigView>,
}

impl ToolboxConfigView {
    /// The custom rules in their order of priority; none where the settings
    /// name none.
    pub open spec fn rules(self) -> Seq<OrganizeRuleView> {
        match self.organize {
            Some(organize) => match organize.custom_rules {
                Some(rules) => rules,
                None => Seq::empty(),
            },
            None => Seq::empty(),
        }
    }
}

impl View for ToolboxConfig {
    type V = ToolboxConfigView;

    open spec fn view(&self) -> ToolboxConfigView {
        ToolboxConfigView { organize: self.organize.deep_view() }
    }
}

impl DeepView for ToolboxConfig {
    type V = ToolboxConfigView;

    open spec fn deep_view(&self) -> ToolboxConfigView {
        self@
    }
}

impl Default for ToolboxConfig {
    /// The settings of a user who keeps no settings file.
    fn default() -> (config: Self)
        ensures
            config@.organize is None,
    {
        ToolboxConfig { organize: None }
    }
}

impl ToolboxConfig {
    /// Takes the custom rules out of the settings, in their order of
    /// priority. Settings without an organizer section, or without rules in
    /// it, give no rules.
    pub fn custom_rules(self) -> (rules: Vec<OrganizeRule>)
        ensures
            rules.deep_view() == self@.rules(),
    {
        match self.organize {
            Some(organize) => match organize.custom_rules {
                Some(rules) => rules,
                None => {
                    let rules: Vec<OrganizeRule> = Vec::new();
                    assert(rules.deep_view() =~= Seq::empty());
                    rules
                },
            },
            None => {
                let rules: Vec<OrganizeRule> = Vec::new();
                assert(rules.deep_view() =~= Seq::empty());
                rules
            },
        }
    }
}

} // verus!
