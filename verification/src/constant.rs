use vstd::prelude::*;

verus! {

/// Name of the component that reads the sources.
pub const SRCREADER: &'static str = "SrcReader";

/// Name of the component that reads the destinations.
pub const DSTREADER: &'static str = "DstReader";

/// Name of the component that pairs sources with destinations.
pub const JOINER: &'static str = "Joiner";

/// Name of the comparer that finds the copies.
pub const COMPP: &'static str = "CompPlus";

/// Name of the comparer that finds the deletions.
pub const COMPM: &'static str = "CompMinus";

/// Name of the component that writes the script.
pub const SCRIPTGEN: &'static str = "ScriptGen";

/// Name of the log writer.
pub const LOGGER: &'static str = "Logger";

/// Name of the progress display.
pub const PROGRESS: &'static str = "Progress";

} // verus!
