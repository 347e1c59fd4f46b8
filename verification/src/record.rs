use vstd::prelude::*;
use crate::csi::{CSIReading, CSIReadingView};
use crate::telemetry::{TelemetryReading, TelemetryReadingView};

verus! {

/// A record on its way to the sink: a reading under the name of the
/// measurement it is written to.
#[derive(Debug, PartialEq, Eq)]
pub enum DerivedRecord {
    Csi { measurement: String, reading: CSIReading },
    Telemetry { measurement: String, telemetry: TelemetryReading },
}

pub enum DerivedRecordView {
    Csi { measurement: Seq<char>, reading: CSIReadingView },
    Telemetry { measurement: Seq<char>, telemetry: TelemetryReadingView },
}

impl View for DerivedRecord {
    type V = DerivedRecordView;

    open spec fn view(&self) -> DerivedRecordView {
        match self {
            DerivedRecord::Csi { measurement, reading } => DerivedRecordView::Csi {
                measurement: measurement@,
                reading: reading@,
            },
            DerivedRecord::Telemetry { measurement, telemetry } => DerivedRecordView::Telemetry {
                measurement: measurement@,
                telemetry: telemetry@,
            },
        }
    }
}

/// The views of a run of records.
pub open spec fn record_views(records: Seq<DerivedRecord>) -> Seq<DerivedRecordView> {
    Seq::new(records.len(), |i: int| records[i]@)
}

/// The records that carry a run of CSI readings under one measurement.
pub open spec fn csi_records(measurement: Seq<char>, readings: Seq<CSIReadingView>) -> Seq<
    DerivedRecordView,
> {
    Seq::new(
        readings.len(),
        |i: int| DerivedRecordView::Csi { measurement, reading: readings[i] },
    )
}

/// The records that wait for the next write to the sink, in the order in
/// which they were added, and the size above which a flush is due.
pub struct Batch {
    records: Vec<DerivedRecord>,
    threshold: usize,
}

impl Batch {
    /// The waiting records, oldest first.
    pub closed spec fn pending(&self) -> Seq<DerivedRecordView> {
        record_views(self.records@)
    }

    /// The size above which a flush is due.
    pub closed spec fn limit(&self) -> nat {
        self.threshold as nat
    }

    /// Whether the batch has grown past its threshold.
    pub open spec fn due(&self) -> bool {
        self.pending().len() > self.limit()
    }

    pub fn new(threshold: usize) -> (batch: Batch)
        ensures
            batch.pending() == Seq::<DerivedRecordView>::empty(),
            batch.limit() == threshold,
    {
        let batch = Batch { records: Vec::new(), threshold };
        batch
    }

    pub fn len(&self) -> (n: usize)
        ensures
            n == self.pending().len(),
    {
        self.records.len()
    }

    /// Adds records behind those that wait and says whether a flush is due
    /// now: whether more records wait than the threshold allows. A batch
    /// that was not due, and takes no more than a threshold's worth of
    /// records at once, stays within twice the threshold.
    pub fn add_readings(&mut self, readings: Vec<DerivedRecord>) -> (flush: bool)
        ensures
            final(self).pending() == old(self).pending() + record_views(readings@),
            final(self).limit() == old(self).limit(),
            flush == final(self).due(),
            !old(self).due() && readings@.len() <= old(self).limit() ==> final(self).pending().len()
                <= 2 * old(self).limit(),
    {
        let mut readings = readings;
        self.records.append(&mut readings);
        self.records.len() > self.threshold
    }

    /// Hands out all waiting records, oldest first, and leaves none.
    pub fn take(&mut self) -> (taken: Vec<DerivedRecord>)
        ensures
            record_views(taken@) == old(self).pending(),
            final(self).pending() == Seq::<DerivedRecordView>::empty(),
            final(self).limit() == old(self).limit(),
            !final(self).due(),
    {
        let taken = self.records.split_off(0);
        taken
    }
}

} // verus!
