use vstd::prelude::*;
use crate::config::GlobalConfig;
use std::marker::PhantomData;

verus! {

/// JSON export of crawl results of kind `T`.
pub struct Exporter<T> {
    global_config: GlobalConfig,
    _phantom_data: PhantomData<T>,
}

impl<T> Exporter<T> {
    pub fn new(global_config: GlobalConfig) -> (r: Self)
        ensures
            r.config_view() == global_config,
    {
        Self { global_config, _phantom_data: PhantomData }
    }

    pub closed spec fn config_view(&self) -> GlobalConfig {
        self.global_config
    }

    /// The preferences this exporter follows.
    pub fn global_config(&self) -> (r: &GlobalConfig)
        ensures
            *r == self.config_view(),
    {
        &self.global_config
    }

    /// Whether the results are to be written at all: only where an output
    /// path was given.
    pub fn is_enabled(&self) -> (r: bool)
        ensures
            r == (self.config_view().output@.len() > 0),
    {
        self.global_config.output.unicode_len() > 0
    }
}

} // verus!
