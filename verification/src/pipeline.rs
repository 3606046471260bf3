//! What happens to a transcript once recognition ends: whether it is worth
//! processing, and what text is pasted after the optional correction.

use vstd::prelude::*;
use crate::llm::{CorrectionModel, CorrectionOutcome};
use crate::text::{chars_of, trim_class, CharClass};

verus! {

/// A text is worth processing, pasting or keeping when it is not blank.
pub open spec fn has_content(text: Seq<char>) -> bool {
    crate::text::trim(text, CharClass::WhiteSpace).len() > 0
}

/// Whether a text is worth processing (it is not blank).
pub fn worth_processing(text: &str) -> (b: bool)
    ensures
        b == has_content(text@),
{
    trim_class(&chars_of(text), CharClass::WhiteSpace).len() > 0
}

/// How the correction of a transcript ended.
#[derive(Debug)]
pub enum CorrectionResult {
    /// The service answered.
    Corrected(CorrectionOutcome),
    /// The request failed, for this reason.
    Failed(String),
    /// The user cancelled it.
    Cancelled,
}

/// Mathematical model of a [`CorrectionResult`].
pub enum CorrectionResultModel {
    Corrected(CorrectionModel),
    Failed(Seq<char>),
    Cancelled,
}

impl View for CorrectionResult {
    type V = CorrectionResultModel;

    open spec fn view(&self) -> CorrectionResultModel {
        match self {
            CorrectionResult::Corrected(o) => CorrectionResultModel::Corrected(o@),
            CorrectionResult::Failed(e) => CorrectionResultModel::Failed(e@),
            CorrectionResult::Cancelled => CorrectionResultModel::Cancelled,
        }
    }
}

/// The text to paste after correction and the error to report: the
/// service's text with its fallback reason, the original text with the
/// failure, or nothing at all when the correction was cancelled.
pub open spec fn after_correction_spec(text: Seq<char>, result: CorrectionResultModel) -> Option<(Seq<char>, Option<Seq<char>>)> {
    match result {
        CorrectionResultModel::Corrected(o) => Some((o.final_text, o.fallback_reason)),
        CorrectionResultModel::Failed(e) => Some((text, Some(e))),
        CorrectionResultModel::Cancelled => None,
    }
}

/// The text to paste after correction, and the error to report.
pub fn text_after_correction(text: String, result: CorrectionResult) -> (r: Option<(String, Option<String>)>)
    ensures
        match r {
            Some((t, e)) => after_correction_spec(text@, result@) == Some(
                (t@, crate::llm::opt_view(e)),
            ),
            None => after_correction_spec(text@, result@) is None,
        },
{
    match result {
        CorrectionResult::Corrected(o) => Some((o.final_text, o.fallback_reason)),
        CorrectionResult::Failed(e) => Some((text, Some(e))),
        CorrectionResult::Cancelled => None,
    }
}

} // verus!
