//! Request construction and the dispatch plan: a raw serialized override
//! payload, when supplied, fully replaces flag-built construction; the
//! dry-run flag stops an invocation before any call is made.

use vstd::prelude::*;

use crate::clap::impl_from_arg_matches;
use crate::clap::lm_view;
use crate::clap::spec_decode;
use crate::clap::spec_result_matches;
use crate::clap::GLeafValue;
use crate::clap::LeafMap;
use crate::json::decode_override;
use crate::json::spec_override_outcome;
use crate::json::spec_parse_json;
use crate::json::GParse;
use crate::value::CResult;
use crate::value::DecodeError;
use crate::value::StructuredValue;
use crate::visit::TCFieldType;

verus! {

/// What request construction yields: with an override present, exactly the
/// override's outcome, whatever the leaf values say; without one, exactly
/// the decoded leaf values.
pub open spec fn spec_build_request(
    n: TCFieldType,
    m: Seq<(Seq<char>, GLeafValue)>,
    ov: Option<GParse>,
) -> CResult {
    match ov {
        Option::Some(p) => spec_override_outcome(n, p),
        Option::None => spec_decode(n, m),
    }
}

/// Precedence: when an override payload is present, the built request is
/// the value produced from the override alone; the individually supplied
/// leaf values have no effect at all.
pub proof fn lemma_override_precedence(
    n: TCFieldType,
    m1: Seq<(Seq<char>, GLeafValue)>,
    m2: Seq<(Seq<char>, GLeafValue)>,
    p: GParse,
)
    ensures
        spec_build_request(n, m1, Option::Some(p)) == spec_build_request(n, m2, Option::Some(p)),
{
}

/// Build the request value for one invocation: parse the override payload
/// when one is supplied and ignore the leaf values outright; otherwise
/// decode the leaf values against the schema.
pub fn build_request(
    schema: &TCFieldType,
    matches: &LeafMap,
    json_data: Option<&String>,
) -> (r: Result<StructuredValue, DecodeError>)
    ensures
        json_data is None ==> spec_result_matches(
            r,
            spec_build_request(*schema, lm_view(*matches), Option::None),
        ),
        (json_data matches Option::Some(payload) ==> spec_result_matches(
            r,
            spec_build_request(
                *schema,
                lm_view(*matches),
                Option::Some(spec_parse_json(payload@)),
            ),
        )),
{
    match json_data {
        Option::Some(payload) => decode_override(schema, payload),
        Option::None => impl_from_arg_matches(schema, matches),
    }
}

/// What one invocation should do once its request value is built: print
/// the value and stop under dry-run, or send it.
#[derive(Debug, PartialEq, Eq)]
pub enum RunAction {
    PrintOnly(StructuredValue),
    Dispatch(StructuredValue),
}

/// Decide one invocation: build the request and, on success, either stop
/// for printing under dry-run or hand the value on for dispatch. A decode
/// failure abandons the invocation before any call is made.
pub fn plan_invocation(
    schema: &TCFieldType,
    matches: &LeafMap,
    json_data: Option<&String>,
    dry_run: bool,
) -> (r: Result<RunAction, DecodeError>)
    ensures
        match r {
            Result::Ok(RunAction::PrintOnly(_)) => dry_run,
            Result::Ok(RunAction::Dispatch(_)) => !dry_run,
            Result::Err(_) => true,
        },
        json_data is None ==> spec_result_matches(
            unwrap_action(r),
            spec_build_request(*schema, lm_view(*matches), Option::None),
        ),
        (json_data matches Option::Some(payload) ==> spec_result_matches(
            unwrap_action(r),
            spec_build_request(
                *schema,
                lm_view(*matches),
                Option::Some(spec_parse_json(payload@)),
            ),
        )),
{
    match build_request(schema, matches, json_data) {
        Result::Ok(v) => {
            if dry_run {
                Ok(RunAction::PrintOnly(v))
            } else {
                Ok(RunAction::Dispatch(v))
            }
        }
        Result::Err(e) => Err(e),
    }
}

/// The built value a plan carries, with the plan's mode stripped.
pub open spec fn unwrap_action(r: Result<RunAction, DecodeError>) -> Result<
    StructuredValue,
    DecodeError,
> {
    match r {
        Result::Ok(RunAction::PrintOnly(v)) => Result::Ok(v),
        Result::Ok(RunAction::Dispatch(v)) => Result::Ok(v),
        Result::Err(e) => Result::Err(e),
    }
}

/// What came back from the one remote call of an invocation: a printable
/// response, or the remote failure's status text. No retry follows either
/// way; a failure is fatal to the invocation.
#[derive(Debug, PartialEq, Eq)]
pub enum DispatchOutcome {
    Success { rendered: String },
    Failure { status: String },
}

impl DispatchOutcome {
    /// The process exit code an outcome calls for: success exits zero,
    /// anything else is nonzero.
    pub fn exit_code(&self) -> (c: i32)
        ensures
            (c == 0) <==> (self is Success),
            self is Failure ==> c == 1,
    {
        match self {
            DispatchOutcome::Success { .. } => 0,
            DispatchOutcome::Failure { .. } => 1,
        }
    }
}

} // verus!
