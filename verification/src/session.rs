//! The handshake with the outside exporter, as a small state machine.
//!
//! The deck is fully encoded in memory first. The driver then asks the
//! session what to do next, performs that one outside step — writing the
//! data file, then finalizing the scheduled media extractions — and
//! records whether it succeeded. A failure ends the run at once: nothing
//! further is ever requested, so no finalization happens after a failed
//! data-file write and no partial deck counts as a success.

use vstd::prelude::*;
use crate::csv_out::{csv_text, encode_csv};
use crate::notes::AnkiNote;

verus! {

/// What the outside exporter is asked to do next.
#[derive(Clone, Copy, Debug, PartialEq, Eq, Structural)]
pub enum ExportAction {
    WriteDataFile,
    FinishExports,
}

/// How far one export run has come.
#[derive(Clone, Copy, Debug, PartialEq, Eq, Structural)]
pub enum ExportStage {
    Serialized,
    DataFileWritten,
    Finished,
    Failed,
}

/// The one outside step owed at each stage; nothing once the run has
/// finished or failed.
pub open spec fn next_action_spec(stage: ExportStage) -> Option<ExportAction> {
    match stage {
        ExportStage::Serialized => Some(ExportAction::WriteDataFile),
        ExportStage::DataFileWritten => Some(ExportAction::FinishExports),
        ExportStage::Finished => None,
        ExportStage::Failed => None,
    }
}

/// The stage after the pending step was performed with outcome `ok`.
pub open spec fn step_spec(stage: ExportStage, ok: bool) -> ExportStage {
    match stage {
        ExportStage::Serialized => if ok {
            ExportStage::DataFileWritten
        } else {
            ExportStage::Failed
        },
        ExportStage::DataFileWritten => if ok {
            ExportStage::Finished
        } else {
            ExportStage::Failed
        },
        ExportStage::Finished => ExportStage::Finished,
        ExportStage::Failed => ExportStage::Failed,
    }
}

/// One export run: the encoded deck and the progress of the handshake.
#[derive(Debug)]
pub struct ExportSession {
    pub csv: String,
    pub stage: ExportStage,
}

impl ExportSession {
    /// Encodes the records and opens the handshake: the data file is owed
    /// first.
    pub fn new(notes: &Vec<AnkiNote>) -> (s: ExportSession)
        ensures
            s.stage == ExportStage::Serialized,
            s.csv@ == csv_text(notes@),
    {
        ExportSession { csv: encode_csv(notes), stage: ExportStage::Serialized }
    }

    /// The logical name the data file is written under.
    pub fn data_file_name(&self) -> (r: &'static str)
        ensures
            r@ == "cards.csv"@,
    {
        "cards.csv"
    }

    /// The one outside step the driver owes next, if any.
    pub fn next_action(&self) -> (a: Option<ExportAction>)
        ensures
            a == next_action_spec(self.stage),
    {
        match self.stage {
            ExportStage::Serialized => Some(ExportAction::WriteDataFile),
            ExportStage::DataFileWritten => Some(ExportAction::FinishExports),
            ExportStage::Finished => None,
            ExportStage::Failed => None,
        }
    }

    /// Records whether the pending step succeeded; on failure the run is
    /// over for good.
    pub fn record_outcome(&mut self, ok: bool)
        requires
            next_action_spec(old(self).stage) is Some,
        ensures
            final(self).stage == step_spec(old(self).stage, ok),
            final(self).csv == old(self).csv,
    {
        self.stage = match self.stage {
            ExportStage::Serialized => if ok {
                ExportStage::DataFileWritten
            } else {
                ExportStage::Failed
            },
            ExportStage::DataFileWritten => if ok {
                ExportStage::Finished
            } else {
                ExportStage::Failed
            },
            ExportStage::Finished => ExportStage::Finished,
            ExportStage::Failed => ExportStage::Failed,
        };
    }

    /// The run succeeded: both outside steps were performed and reported
    /// successful.
    pub fn is_finished(&self) -> (b: bool)
        ensures
            b == (self.stage == ExportStage::Finished),
    {
        match self.stage {
            ExportStage::Finished => true,
            _ => false,
        }
    }
}

/// Media finalization is only ever requested right after a successful
/// data-file write: no other stage and no failure leads to it.
pub proof fn lemma_finish_only_after_successful_write(stage: ExportStage, ok: bool)
    ensures
        next_action_spec(step_spec(stage, ok)) == Some(ExportAction::FinishExports) ==> stage
            == ExportStage::Serialized && ok,
{
}

/// A failed data-file write fails the whole run: the session reaches the
/// failed stage, from which no further outside step — in particular no
/// media finalization — is ever requested.
pub proof fn lemma_failed_write_stops_export()
    ensures
        step_spec(ExportStage::Serialized, false) == ExportStage::Failed,
        next_action_spec(ExportStage::Failed) is None,
{
}

} // verus!
