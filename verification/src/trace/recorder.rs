//! Recording a run.

use vstd::prelude::*;

use crate::browser::BrowserConfig;
use crate::events::stream::{events_view, SequencedEvent};
use crate::session::cookies::SessionState;
use crate::transport::bridge::{BatchRequest, BatchResponse};
use crate::transport::protocol::{
    batches_view, records_view, BatchRecordView, BatchWireResponse, TraceBatchRecord,
    TraceEventRecord, TraceFile, TraceView,
};

verus! {

/// A run under recording, with the path of its file.
#[derive(Debug)]
pub struct TraceRecorder {
    path: String,
    trace: TraceFile,
}

impl TraceRecorder {
    /// The path of the file.
    pub closed spec fn file(&self) -> Seq<char> {
        self.path@
    }

    /// What has been recorded.
    pub closed spec fn recorded(&self) -> TraceView {
        self.trace@
    }

    /// Starts a recording.
    pub fn new(path: String, browser_config: BrowserConfig) -> (res: Self)
        ensures
            res.file() == path@,
            res.recorded() == (TraceView {
                protocol_version: 1,
                browser_config: browser_config@,
                initial_session: None,
                batches: Seq::empty(),
            }),
    {
        let batches: Vec<TraceBatchRecord> = Vec::new();
        assert(batches_view(batches@) =~= Seq::<BatchRecordView>::empty());
        TraceRecorder {
            path,
            trace: TraceFile {
                protocol_version: 1,
                browser_config,
                initial_session: None,
                batches,
            },
        }
    }

    /// Continues a recording that was read from a file.
    pub fn resume(path: String, trace: TraceFile) -> (res: Self)
        ensures
            res.file() == path@,
            res.recorded() == trace@,
    {
        TraceRecorder { path, trace }
    }

    /// Records the session that the run starts with.
    pub fn set_initial_session(&mut self, session: SessionState)
        ensures
            final(self).file() == old(self).file(),
            final(self).recorded() == (TraceView {
                initial_session: Some(session@),
                ..old(self).recorded()
            }),
    {
        self.trace.initial_session = Some(session);
    }

    /// Records a batch, its outcome and the events that it caused.
    pub fn record_batch(
        &mut self,
        request: BatchRequest,
        response: BatchResponse,
        emitted_events: &[SequencedEvent],
    )
        ensures
            final(self).file() == old(self).file(),
            final(self).recorded() == (TraceView {
                batches: old(self).recorded().batches.push(
                    BatchRecordView {
                        batch_id: request@.batch_id,
                        request: request@,
                        response: response@,
                        emitted_events: events_view(emitted_events@),
                    },
                ),
                ..old(self).recorded()
            }),
    {
        let mut emitted: Vec<TraceEventRecord> = Vec::new();
        let mut i: usize = 0;
        while i < emitted_events.len()
            invariant
                i <= emitted_events@.len(),
                emitted@.len() == i,
                forall|j: int| 0 <= j < i ==> (#[trigger] emitted@[j])@ == emitted_events@[j]@,
            decreases emitted_events@.len() - i,
        {
            let event = &emitted_events[i];
            emitted.push(
                TraceEventRecord {
                    sequence: event.sequence,
                    timestamp_ms: event.timestamp_ms,
                    event: event.event.clone(),
                },
            );
            i += 1;
        }
        assert(records_view(emitted@) =~= events_view(emitted_events@));
        let ghost before = self.trace.batches@;
        let BatchResponse { batch_id, results, snapshot, events } = response;
        let record = TraceBatchRecord {
            batch_id: request.batch_id,
            request,
            response: BatchWireResponse { batch_id, results, snapshot, events },
            emitted_events: emitted,
        };
        let ghost added = record@;
        self.trace.batches.push(record);
        assert(batches_view(self.trace.batches@) =~= batches_view(before).push(added));
    }

    /// The path of the file.
    pub fn path(&self) -> (res: &str)
        ensures
            res@ == self.file(),
    {
        self.path.as_str()
    }

    /// What has been recorded.
    pub fn trace(&self) -> (res: &TraceFile)
        ensures
            res@ == self.recorded(),
    {
        &self.trace
    }
}

} // verus!
