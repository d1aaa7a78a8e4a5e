//! Persistence result reporting: the error taxonomy of a run and the exact
//! wording of the success and failure messages handed back to the caller.
use vstd::prelude::*;

use crate::text::decimal;
use crate::text::u32_to_string;

verus! {

/// How a failed run is classified.
#[derive(Clone, Copy, Debug, PartialEq, Eq, Structural)]
pub enum FailureKind {
    /// A record was malformed at the source; fatal for the whole batch.
    GroupingInput,
    /// An order carries no usable fulfillment-type value; the whole run is
    /// aborted rather than silently skipping the order.
    MissingFulfillment,
    /// The destination path is held open by another process.
    DestinationLocked,
    /// Any other failure while serializing to the destination.
    GenericSave,
}

/// A classified, human-readable failure.
#[derive(Debug)]
pub struct EngineFailure {
    /// The classification.
    pub kind: FailureKind,
    /// The user-facing wording.
    pub message: String,
}

/// Wording of the success message, before the destination path.
pub open spec fn saved_text() -> Seq<char> {
    "The order labels have been saved to "@
}

/// The success message naming the destination path.
pub fn success_message(path: &str) -> (r: String)
    ensures
        r@ == saved_text() + path@,
{
    let r = String::from_str("The order labels have been saved to ").concat(path);
    proof {
        assert(r@ =~= saved_text() + path@);
    }
    r
}

/// Wording of the missing-fulfillment failure, before the order identifier.
pub open spec fn missing_fulfillment_text() -> Seq<char> {
    "No line item carries a fulfillment type in order # "@
}

/// The message of a missing-fulfillment failure for one order.
pub open spec fn missing_fulfillment_message(id: u32) -> Seq<char> {
    missing_fulfillment_text() + decimal(id as nat)
}

/// A missing-fulfillment failure naming the offending order.
pub fn missing_fulfillment_failure(id: u32) -> (r: EngineFailure)
    ensures
        r.kind == FailureKind::MissingFulfillment,
        r.message@ == missing_fulfillment_message(id),
{
    let digits = u32_to_string(id);
    let message = String::from_str("No line item carries a fulfillment type in order # ").concat(
        digits.as_str(),
    );
    proof {
        assert(message@ =~= missing_fulfillment_message(id));
    }
    EngineFailure { kind: FailureKind::MissingFulfillment, message }
}

/// The operating-system error code of a sharing violation: the destination
/// file is held open by another process.
pub const SHARING_VIOLATION: i32 = 32;

/// Wording of the locked-destination failure, before the destination path.
pub open spec fn locked_text() -> Seq<char> {
    "The PDF file may be open, please close it before saving again.\n"@
}

/// Wording of the generic save failure, before the destination path.
pub open spec fn save_error_text() -> Seq<char> {
    "Error saving the PDF file:\n"@
}

/// Separator between the destination path and the underlying error text.
pub open spec fn detail_sep() -> Seq<char> {
    "\n"@
}

/// Classify the outcome of the save step: a sharing violation is reported as
/// the distinct locked-destination failure, anything else as a generic save
/// failure carrying the path and the underlying error text.
pub fn classify_save_error(raw_os: Option<i32>, path: &str, detail: &str) -> (r: EngineFailure)
    ensures
        raw_os == Some(SHARING_VIOLATION) ==> r.kind == FailureKind::DestinationLocked
            && r.message@ == locked_text() + path@,
        raw_os != Some(SHARING_VIOLATION) ==> r.kind == FailureKind::GenericSave && r.message@
            == save_error_text() + path@ + detail_sep() + detail@,
{
    let locked = match raw_os {
        Some(code) => code == SHARING_VIOLATION,
        None => false,
    };
    if locked {
        let message = String::from_str(
            "The PDF file may be open, please close it before saving again.\n",
        ).concat(path);
        proof {
            assert(message@ =~= locked_text() + path@);
        }
        EngineFailure { kind: FailureKind::DestinationLocked, message }
    } else {
        let message = String::from_str("Error saving the PDF file:\n").concat(path).concat(
            "\n",
        ).concat(detail);
        proof {
            assert(message@ =~= save_error_text() + path@ + detail_sep() + detail@);
        }
        EngineFailure { kind: FailureKind::GenericSave, message }
    }
}

/// Wording of the malformed-input failure, before the source path.
pub open spec fn grouping_error_text() -> Seq<char> {
    "Error converting the CSV file:\n"@
}

/// A malformed-record failure naming the source path and the underlying
/// error text; fatal for the whole batch.
pub fn grouping_input_failure(path: &str, detail: &str) -> (r: EngineFailure)
    ensures
        r.kind == FailureKind::GroupingInput,
        r.message@ == grouping_error_text() + path@ + detail_sep() + detail@,
{
    let message = String::from_str("Error converting the CSV file:\n").concat(path).concat(
        "\n",
    ).concat(detail);
    proof {
        assert(message@ =~= grouping_error_text() + path@ + detail_sep() + detail@);
    }
    EngineFailure { kind: FailureKind::GroupingInput, message }
}

} // verus!
