//! The `solc --standard-json` input settings optimizer.

use vstd::prelude::*;

verus! {

/// The `solc --standard-json` input settings optimizer details: which of the
/// passes of `solc` are switched on.
#[derive(Debug, Clone, Copy, PartialEq, Eq, Structural)]
pub struct Details {
    /// Whether the peephole pass is enabled.
    pub peephole: bool,
    /// Whether the inliner is enabled, where the setting is given at all.
    pub inliner: Option<bool>,
    /// Whether the unused `JUMPDEST` remover is enabled.
    pub jumpdest_remover: bool,
    /// Whether literals are reordered in commutative operations.
    pub order_literals: bool,
    /// Whether duplicate code blocks are removed.
    pub deduplicate: bool,
    /// Whether common subexpressions are eliminated.
    pub cse: bool,
    /// Whether the constant optimizer is enabled.
    pub constant_optimizer: bool,
}

impl Details {
    /// The details with every pass switched off and no word on the inliner.
    pub open spec fn all_off() -> Details {
        Details {
            peephole: false,
            inliner: None,
            jumpdest_remover: false,
            order_literals: false,
            deduplicate: false,
            cse: false,
            constant_optimizer: false,
        }
    }
}

impl Default for Details {
    fn default() -> (details: Details)
        ensures
            details == Details::all_off(),
    {
        Details {
            peephole: false,
            inliner: None,
            jumpdest_remover: false,
            order_literals: false,
            deduplicate: false,
            cse: false,
            constant_optimizer: false,
        }
    }
}

/// Where the settings of the LLVM optimizer are taken from.
#[derive(Debug, Clone, Copy, PartialEq, Eq, Structural)]
pub enum SettingsSource {
    /// From the optimization mode given on the command line.
    Mode(char),
    /// The default that optimizes for the number of cycles.
    Cycles,
}

/// The `solc --standard-json` input settings optimizer.
#[derive(Debug)]
pub struct Optimizer {
    /// Whether the optimizer is enabled.
    pub enabled: bool,
    /// The optimization mode string.
    pub mode: Option<char>,
    /// The `solc` optimizer details.
    pub details: Option<Details>,
}

impl Optimizer {
    /// A shortcut constructor.
    pub fn new(enabled: bool, mode: Option<char>) -> (optimizer: Optimizer)
        ensures
            optimizer.enabled == enabled,
            optimizer.mode == mode,
            optimizer.details == Some(Details::all_off()),
    {
        Optimizer { enabled, mode, details: Some(Details::default()) }
    }

    /// Sets the necessary defaults.
    pub fn normalize(&mut self)
        ensures
            final(self).enabled == old(self).enabled,
            final(self).mode == old(self).mode,
            final(self).details == Some(Details::all_off()),
    {
        self.details = Some(Details::default());
    }

    /// Where the settings of the LLVM optimizer come from: from the mode,
    /// where one is set, and from the default for cycles otherwise.
    pub fn settings_source(&self) -> (source: SettingsSource)
        ensures
            source == match self.mode {
                Some(mode) => SettingsSource::Mode(mode),
                None => SettingsSource::Cycles,
            },
    {
        match self.mode {
            Some(mode) => SettingsSource::Mode(mode),
            None => SettingsSource::Cycles,
        }
    }
}

} // verus!
