//! Run configuration.
//!
//! An `Options` value is the validated configuration an external argument
//! parser hands to the engine: the filter strategy, the ordered input
//! identifiers, and the two display flags. The engine demands a non-empty
//! input list; everything else about argument handling stays outside.

use vstd::prelude::*;
use crate::errors::RunError;
use crate::filters::FilterKind;

verus! {

/// Options struct to store configuration state.
///
/// Holds everything relevant to one run: the filter strategy that decides
/// fingerprinting, the ordered list of input identifiers, and the flags
/// that pick the display mode.
#[derive(Clone, Debug)]
pub struct Options {
    /// The fingerprinting strategy for the whole run.
    pub filter: FilterKind,
    /// The input identifiers, in the order they are to be processed.
    pub inputs: Vec<String>,
    /// Display duplicates instead of uniques; classification is unchanged.
    pub inverted: bool,
    /// Display aggregate counts instead of per-input entries.
    pub statistics: bool,
}

impl Options {
    /// A configuration the engine accepts: at least one input.
    pub open spec fn wf(&self) -> bool {
        self.inputs@.len() > 0
    }

    /// Builds a validated configuration, rejecting an empty input list.
    pub fn new(filter: FilterKind, inputs: Vec<String>, inverted: bool, statistics: bool) -> (r:
        Result<Options, RunError>)
        ensures
            inputs@.len() > 0 ==> (r matches Ok(o) && o.filter == filter && o.inputs@ == inputs@
                && o.inverted == inverted && o.statistics == statistics && o.wf()),
            inputs@.len() == 0 ==> (r matches Err(e) && e is ConfigurationInvalid),
    {
        if inputs.len() == 0 {
            Err(RunError::ConfigurationInvalid)
        } else {
            Ok(Options { filter, inputs, inverted, statistics })
        }
    }

    /// Checks the engine's precondition on this configuration: succeeds
    /// exactly when the input list is non-empty.
    pub fn validate(&self) -> (r: Result<(), RunError>)
        ensures
            r is Ok <==> self.wf(),
            r matches Err(e) ==> e is ConfigurationInvalid,
    {
        if self.inputs.len() == 0 {
            Err(RunError::ConfigurationInvalid)
        } else {
            Ok(())
        }
    }
}

/// Maps a filter name to its strategy: exactly "digest" and "naive" are
/// recognized; any other name is a configuration error.
pub fn parse_filter_kind(name: &str) -> (r: Result<FilterKind, RunError>)
    ensures
        name@ == "digest"@ ==> (r matches Ok(k) && k == FilterKind::Digest),
        name@ == "naive"@ ==> (r matches Ok(k) && k == FilterKind::Naive),
        name@ != "digest"@ && name@ != "naive"@ ==> (r matches Err(e)
            && e is ConfigurationInvalid),
{
    proof {
        reveal_strlit("digest");
        reveal_strlit("naive");
        assert("digest"@.len() == 6);
        assert("naive"@.len() == 5);
    }
    let owned: String = name.to_owned();
    let digest_name: String = "digest".to_owned();
    let naive_name: String = "naive".to_owned();
    if owned == digest_name {
        Ok(FilterKind::Digest)
    } else if owned == naive_name {
        Ok(FilterKind::Naive)
    } else {
        Err(RunError::ConfigurationInvalid)
    }
}

} // verus!
