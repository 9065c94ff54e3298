//! The run configuration the caller hands to the processing core: which
//! dialect to read, and whether a rejected line is skipped or fatal.

use vstd::prelude::*;

use crate::fields::Segment;

verus! {

/// Which load balancer wrote the logs; selects the line grammar and the
/// expected file suffix of the bulk mode.
#[derive(Clone, Copy, PartialEq, Eq, Structural, Debug)]
pub enum Type {
    Alb,
    ClassicLb,
}

/// Per-run tolerance: with `skip_parse_errors` set, a line the grammar
/// rejects is reported and skipped; otherwise it ends the run.
#[derive(Clone, Copy, PartialEq, Eq, Structural, Debug)]
pub struct Config {
    pub skip_parse_errors: bool,
}

/// The grammar table a dialect selects.
pub open spec fn table_of(t: Type) -> Seq<Segment> {
    match t {
        Type::Alb => crate::alb::alb_table(),
        Type::ClassicLb => crate::classic_lb::classic_table(),
    }
}

} // verus!
