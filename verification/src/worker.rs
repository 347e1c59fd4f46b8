use vstd::prelude::*;
use crate::config::AppConfig;
use crate::error::RecvMessageError;
use crate::handler::{handle_message, message_outcome};
use crate::message::{frame_datagram, framed};
use crate::record::{record_views, Batch, DerivedRecord, DerivedRecordView};
use crate::store::FrameMap;

verus! {

/// What a receive worker does with one datagram: it splits the first
/// `size` bytes of its buffer into format and payload, handles the message,
/// and adds the records to the batch. The result says whether a flush is
/// due. A datagram that is dropped changes neither senders nor batch.
pub fn process_datagram(
    buf: &[u8],
    size: usize,
    addr: String,
    f: &mut FrameMap,
    config: &AppConfig,
    batch: &mut Batch,
) -> (r: Result<bool, RecvMessageError>)
    requires
        size <= buf@.len(),
        old(f).wf(),
        config.message.csi_frame_size >= 0,
    ensures
        final(f).wf(),
        final(f).window() == old(f).window(),
        final(batch).limit() == old(batch).limit(),
        match framed(buf@, size as int) {
            Some((format, payload)) => match message_outcome(
                format,
                payload,
                *config,
                old(f).entries(),
                old(f).window(),
            ) {
                Ok(outcome) => {
                    &&& r matches Ok(flush) && flush == final(batch).due()
                    &&& final(batch).pending() == old(batch).pending() + outcome.records
                    &&& final(f).entries() == outcome.entries
                },
                Err(e) => {
                    &&& r matches Err(err) && err == e
                    &&& final(batch).pending() == old(batch).pending()
                    &&& final(f).entries() == old(f).entries()
                },
            },
            None => final(batch).pending() == old(batch).pending() && final(f).entries()
                == old(f).entries() && if size == 0 {
                r matches Err(RecvMessageError::MessageTypeDecodeError)
            } else {
                r matches Err(RecvMessageError::MessageFormatDecodeError(b, a, n)) && b == buf@[0]
                    && a@ == addr@ && n == size
            },
        },
{
    let recv_message = match frame_datagram(buf, size, addr) {
        Ok(m) => m,
        Err(e) => {
            return Err(e);
        },
    };
    match handle_message(recv_message, f, config) {
        Ok(handled_message) => Ok(batch.add_readings(handled_message)),
        Err(e) => Err(e),
    }
}

/// What the flusher does when the flush signal changes: on `true` it takes
/// every waiting record out of the batch for a single write, on `false` it
/// leaves the batch alone.
pub fn flush_step(needs_flush: bool, batch: &mut Batch) -> (r: Option<Vec<DerivedRecord>>)
    ensures
        final(batch).limit() == old(batch).limit(),
        needs_flush ==> (r matches Some(taken) && record_views(taken@) == old(batch).pending()
            && final(batch).pending() == Seq::<DerivedRecordView>::empty()),
        !needs_flush ==> r is None && final(batch).pending() == old(batch).pending(),
{
    if needs_flush {
        Some(batch.take())
    } else {
        None
    }
}

} // verus!
