//! Distributed ledger stage.

use crate::models::error::{Error, Result};
use crate::text::str_eq;
use vstd::prelude::*;
use vstd::string::StringExecFns;

verus! {

/// Enum representing the distributed ledger stage (development, testing or production).
#[derive(Copy, Clone, PartialEq, Eq, Structural, PartialOrd, Ord, Debug, Hash)]
pub enum Stage {
    /// Development stage.
    Development,
    /// Testing stage.
    Testing,
    /// Production stage.
    Production,
}

/// The name of a `Stage`.
pub open spec fn stage_name(stage: Stage) -> Seq<char> {
    match stage {
        Stage::Development => "development"@,
        Stage::Testing => "testing"@,
        Stage::Production => "production"@,
    }
}

impl Stage {
    /// Parses a `Stage` from a `&str`.
    pub fn parse(s: &str) -> (r: Result<Stage>)
        ensures
            match r {
                Ok(stage) => stage_name(stage) == s@,
                Err(e) => e is InvalidStage && s@ != stage_name(Stage::Development) && s@
                    != stage_name(Stage::Testing) && s@ != stage_name(Stage::Production),
            },
    {
        if str_eq(s, "development") {
            Ok(Stage::Development)
        } else if str_eq(s, "testing") {
            Ok(Stage::Testing)
        } else if str_eq(s, "production") {
            Ok(Stage::Production)
        } else {
            Err(Error::InvalidStage)
        }
    }

    /// Returns the name of the `Stage`, as its `Display` shows it.
    pub fn to_string(&self) -> (r: String)
        ensures
            r@ == stage_name(*self),
    {
        match self {
            Stage::Development => String::from_str("development"),
            Stage::Testing => String::from_str("testing"),
            Stage::Production => String::from_str("production"),
        }
    }
}

impl Default for Stage {
    fn default() -> (r: Stage)
        ensures
            r == Stage::Development,
    {
        Stage::Development
    }
}

/// Parsing the name of a stage gives the stage back.
pub proof fn lemma_stage_name_roundtrip(a: Stage, b: Stage)
    ensures
        stage_name(a) == stage_name(b) ==> a == b,
{
    reveal_strlit("development");
    reveal_strlit("testing");
    reveal_strlit("production");
    assert("development"@[0] != "testing"@[0]);
    assert("development"@[0] != "production"@[0]);
    assert("testing"@[0] != "production"@[0]);
}

} // verus!
