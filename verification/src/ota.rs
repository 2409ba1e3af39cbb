//! Decisions of the over-the-air update through the keyboard's USB port: how the image
//! is cut into chunks and what the firmware's acknowledgements mean.
use vstd::prelude::*;
use crate::text::{decimal, push_decimal, utf8_text};

verus! {

/// Size of one OTA chunk.
pub const OTA_CHUNK_SIZE: usize = 4096;

/// Whether `needle` occurs in `hay` at position `i`.
pub open spec fn occurs_at(hay: Seq<u8>, needle: Seq<u8>, i: int) -> bool {
    0 <= i && i + needle.len() <= hay.len() && hay.subrange(i, i + needle.len()) == needle
}

/// Whether `needle` occurs anywhere in `hay`.
pub open spec fn contains_bytes(hay: Seq<u8>, needle: Seq<u8>) -> bool {
    exists|i: int| occurs_at(hay, needle, i)
}

/// Whether `needle` occurs in `hay` at position `i`.
fn matches_at(hay: &[u8], needle: &[u8], i: usize) -> (r: bool)
    requires
        i + needle@.len() <= hay@.len(),
    ensures
        r == occurs_at(hay@, needle@, i as int),
{
    let n = hay.len();
    let m = needle.len();
    let mut j: usize = 0;
    while j < m
        invariant
            n == hay@.len(),
            m == needle@.len(),
            i + m <= hay@.len(),
            j <= m,
            forall|k: int| 0 <= k < j ==> hay@[i + k] == needle@[k],
        decreases m - j,
    {
        if hay[i + j] != needle[j] {
            proof {
                assert(hay@.subrange(i as int, i + m)[j as int] != needle@[j as int]);
            }
            return false;
        }
        j = j + 1;
    }
    proof {
        assert(hay@.subrange(i as int, i + m) =~= needle@);
    }
    true
}

/// Whether `needle` occurs in `hay` (naive search).
pub fn find_bytes(hay: &[u8], needle: &[u8]) -> (found: bool)
    ensures
        found == contains_bytes(hay@, needle@),
{
    let n = hay.len();
    let m = needle.len();
    if m > n {
        proof {
            assert forall|i: int| !occurs_at(hay@, needle@, i) by {}
        }
        return false;
    }
    let mut i: usize = 0;
    while i <= n - m
        invariant
            n == hay@.len(),
            m == needle@.len(),
            m <= n,
            i <= n - m + 1,
            forall|k: int| 0 <= k < i ==> !occurs_at(hay@, needle@, k),
        decreases n - m + 1 - i,
    {
        if matches_at(hay, needle, i) {
            return true;
        }
        if i == n - m {
            proof {
                assert forall|k: int| !occurs_at(hay@, needle@, k) by {
                    if 0 <= k && k + m <= n {
                        assert(k <= i);
                    }
                }
            }
            return false;
        }
        i = i + 1;
    }
    proof {
        assert forall|k: int| !occurs_at(hay@, needle@, k) by {
            if 0 <= k && k + m <= n {
                assert(k < i);
            }
        }
    }
    false
}

/// What the firmware answered after a chunk.
#[derive(Clone, Copy, Debug, PartialEq, Eq, Structural)]
pub enum OtaAck {
    /// `OTA_FAIL`: the update is aborted.
    Fail,
    /// `OTA_DONE`: the firmware has the whole image.
    Done,
    /// `OTA_OK`, or nothing recognised: send the next chunk.
    Next,
}

/// The acknowledgement words.
pub open spec fn ota_ok() -> Seq<u8> {
    seq![0x4Fu8, 0x54, 0x41, 0x5F, 0x4F, 0x4B]
}

pub open spec fn ota_done() -> Seq<u8> {
    seq![0x4Fu8, 0x54, 0x41, 0x5F, 0x44, 0x4F, 0x4E, 0x45]
}

pub open spec fn ota_fail() -> Seq<u8> {
    seq![0x4Fu8, 0x54, 0x41, 0x5F, 0x46, 0x41, 0x49, 0x4C]
}

pub open spec fn ota_ready() -> Seq<u8> {
    seq![0x4Fu8, 0x54, 0x41, 0x5F, 0x52, 0x45, 0x41, 0x44, 0x59]
}

/// Whether the bytes received after a chunk already hold an acknowledgement
/// (`OTA_OK`, `OTA_DONE` or `OTA_FAIL`), so reading can stop.
pub fn ack_complete(ack: &[u8]) -> (r: bool)
    ensures
        r == (contains_bytes(ack@, ota_ok()) || contains_bytes(ack@, ota_done()) || contains_bytes(
            ack@,
            ota_fail(),
        )),
{
    let ok: [u8; 6] = [0x4F, 0x54, 0x41, 0x5F, 0x4F, 0x4B];
    let done: [u8; 8] = [0x4F, 0x54, 0x41, 0x5F, 0x44, 0x4F, 0x4E, 0x45];
    let fail: [u8; 8] = [0x4F, 0x54, 0x41, 0x5F, 0x46, 0x41, 0x49, 0x4C];
    proof {
        assert(ok@ =~= ota_ok());
        assert(done@ =~= ota_done());
        assert(fail@ =~= ota_fail());
    }
    find_bytes(ack, ok.as_slice()) || find_bytes(ack, done.as_slice()) || find_bytes(
        ack,
        fail.as_slice(),
    )
}

/// The verdict on the bytes received after a chunk: a failure wins over completion.
pub fn ack_verdict(ack: &[u8]) -> (v: OtaAck)
    ensures
        v == (if contains_bytes(ack@, ota_fail()) {
            OtaAck::Fail
        } else if contains_bytes(ack@, ota_done()) {
            OtaAck::Done
        } else {
            OtaAck::Next
        }),
{
    let done: [u8; 8] = [0x4F, 0x54, 0x41, 0x5F, 0x44, 0x4F, 0x4E, 0x45];
    let fail: [u8; 8] = [0x4F, 0x54, 0x41, 0x5F, 0x46, 0x41, 0x49, 0x4C];
    proof {
        assert(done@ =~= ota_done());
        assert(fail@ =~= ota_fail());
    }
    if find_bytes(ack, fail.as_slice()) {
        OtaAck::Fail
    } else if find_bytes(ack, done.as_slice()) {
        OtaAck::Done
    } else {
        OtaAck::Next
    }
}

/// Whether a line from the firmware announces that it is ready to receive. A line
/// that is not UTF-8 text cannot be read, so it does not count.
pub fn is_ready_line(line: &[u8]) -> (r: bool)
    ensures
        r == (vstd::utf8::valid_utf8(line@) && contains_bytes(line@, ota_ready())),
{
    if utf8_text(line).is_none() {
        return false;
    }
    let ready: [u8; 9] = [0x4F, 0x54, 0x41, 0x5F, 0x52, 0x45, 0x41, 0x44, 0x59];
    proof {
        assert(ready@ =~= ota_ready());
    }
    find_bytes(line, ready.as_slice())
}

/// Number of chunks for an image of `total` bytes.
pub fn ota_chunk_count(total: usize) -> (n: usize)
    ensures
        n == (total + 4095) / 4096,
{
    total / OTA_CHUNK_SIZE + if total % OTA_CHUNK_SIZE == 0 { 0 } else { 1 }
}

/// Chunk `i` of the image (the last one may be shorter).
pub fn ota_chunk(fw: &[u8], i: usize) -> (chunk: Vec<u8>)
    requires
        4096 * i < fw@.len(),
    ensures
        chunk@ == fw@.subrange(
            4096 * i,
            if 4096 * i + 4096 <= fw@.len() { 4096 * i + 4096 } else { fw@.len() as int },
        ),
{
    let n = fw.len();
    let start: usize = 4096 * i;
    let end: usize = if n - start >= 4096 { start + 4096 } else { n };
    let mut chunk: Vec<u8> = Vec::new();
    let mut k: usize = start;
    while k < end
        invariant
            start <= k <= end <= n,
            n == fw@.len(),
            chunk@ == fw@.subrange(start as int, k as int),
        decreases end - k,
    {
        chunk.push(fw[k]);
        proof {
            assert(fw@.subrange(start as int, k + 1) =~= fw@.subrange(start as int, k as int).push(
                fw@[k as int],
            ));
        }
        k = k + 1;
    }
    chunk
}

/// Kilobytes sent once chunk `i` (counting from 0) is done.
pub fn ota_sent_kb(i: usize, total: usize) -> (kb: usize)
    requires
        (i + 1) * 4096 <= usize::MAX,
    ensures
        kb == (if (i + 1) * 4096 <= total { (i + 1) * 4096 } else { total as int }) / 1024,
{
    let sent = (i + 1) * OTA_CHUNK_SIZE;
    let w = if sent <= total { sent } else { total };
    w / 1024
}

/// The text command that starts an update of `total` bytes: `OTA <total>`.
pub fn ota_command(total: usize) -> (cmd: String)
    ensures
        cmd@ == "OTA "@ + decimal(total as nat),
{
    let mut cmd = String::from_str("OTA ");
    push_decimal(&mut cmd, total);
    cmd
}

/// Lines read while waiting for `OTA_READY` before the update is given up.
pub const OTA_READY_LINES: usize = 20;

/// What the application observed while performing the current step of an update.
#[derive(Clone, Copy, Debug, PartialEq, Eq, Structural)]
pub enum OtaEvent {
    /// A line was read; `ready` tells whether it announced `OTA_READY`.
    Line { ready: bool },
    /// Reading a line failed (timeout, or text that is not UTF-8).
    LineUnreadable,
    /// The current chunk was written to the port.
    Written,
    /// Writing the current chunk failed.
    WriteFailed,
    /// An acknowledgement was read after the chunk.
    Ack(OtaAck),
    /// No acknowledgement came in time.
    AckTimeout,
}

/// Where an update stands.
#[derive(Clone, Copy, Debug, PartialEq, Eq, Structural)]
pub enum OtaStep {
    /// The `OTA <size>` command was sent; `lines` lines without `OTA_READY` were read.
    AwaitReady { lines: usize },
    /// Chunk `index` is to be written.
    SendChunk { index: usize },
    /// Chunk `index` was written; its acknowledgement is awaited.
    AwaitAck { index: usize },
    /// The firmware has the image.
    Complete,
    /// The update stopped on an error.
    Failed,
}

/// The step after `step` once `ev` was observed, for an image of `num_chunks` chunks.
/// An event that does not belong to the step leaves it unchanged.
pub open spec fn spec_ota_next(step: OtaStep, ev: OtaEvent, num_chunks: usize) -> OtaStep {
    match step {
        OtaStep::AwaitReady { lines } => match ev {
            OtaEvent::Line { ready: true } => if num_chunks == 0 {
                OtaStep::Complete
            } else {
                OtaStep::SendChunk { index: 0 }
            },
            OtaEvent::Line { ready: false } | OtaEvent::LineUnreadable => if lines + 1
                < OTA_READY_LINES {
                OtaStep::AwaitReady { lines: (lines + 1) as usize }
            } else {
                OtaStep::Failed
            },
            _ => step,
        },
        OtaStep::SendChunk { index } => match ev {
            OtaEvent::Written => OtaStep::AwaitAck { index },
            OtaEvent::WriteFailed => OtaStep::Failed,
            _ => step,
        },
        OtaStep::AwaitAck { index } => match ev {
            OtaEvent::Ack(OtaAck::Fail) => OtaStep::Failed,
            OtaEvent::Ack(OtaAck::Done) => OtaStep::Complete,
            OtaEvent::Ack(OtaAck::Next) | OtaEvent::AckTimeout => if index + 1 < num_chunks {
                OtaStep::SendChunk { index: (index + 1) as usize }
            } else {
                OtaStep::Complete
            },
            _ => step,
        },
        OtaStep::Complete => OtaStep::Complete,
        OtaStep::Failed => OtaStep::Failed,
    }
}

/// The first step, right after the `OTA <size>` command was sent.
pub fn ota_start() -> (s: OtaStep)
    ensures
        s == (OtaStep::AwaitReady { lines: 0 }),
{
    OtaStep::AwaitReady { lines: 0 }
}

/// Decide the step after `step` once `ev` was observed.
pub fn ota_next(step: OtaStep, ev: OtaEvent, num_chunks: usize) -> (next: OtaStep)
    ensures
        next == spec_ota_next(step, ev, num_chunks),
{
    match step {
        OtaStep::AwaitReady { lines } => match ev {
            OtaEvent::Line { ready: true } => if num_chunks == 0 {
                OtaStep::Complete
            } else {
                OtaStep::SendChunk { index: 0 }
            },
            OtaEvent::Line { ready: false } | OtaEvent::LineUnreadable => if lines
                < OTA_READY_LINES - 1 {
                OtaStep::AwaitReady { lines: lines + 1 }
            } else {
                OtaStep::Failed
            },
            _ => step,
        },
        OtaStep::SendChunk { index } => match ev {
            OtaEvent::Written => OtaStep::AwaitAck { index },
            OtaEvent::WriteFailed => OtaStep::Failed,
            _ => step,
        },
        OtaStep::AwaitAck { index } => match ev {
            OtaEvent::Ack(OtaAck::Fail) => OtaStep::Failed,
            OtaEvent::Ack(OtaAck::Done) => OtaStep::Complete,
            OtaEvent::Ack(OtaAck::Next) | OtaEvent::AckTimeout => if num_chunks > 0 && index
                < num_chunks - 1 {
                OtaStep::SendChunk { index: index + 1 }
            } else {
                OtaStep::Complete
            },
            _ => step,
        },
        OtaStep::Complete => OtaStep::Complete,
        OtaStep::Failed => OtaStep::Failed,
    }
}

/// The step reached from `step` after the events `evs`, in order.
pub open spec fn ota_run(step: OtaStep, evs: Seq<OtaEvent>, num_chunks: usize) -> OtaStep
    decreases evs.len(),
{
    if evs.len() == 0 {
        step
    } else {
        spec_ota_next(ota_run(step, evs.drop_last(), num_chunks), evs.last(), num_chunks)
    }
}

/// The events of an update where everything goes well: the ready line, then for each
/// chunk its write and an `OTA_OK`.
pub open spec fn ota_good_events(num_chunks: nat) -> Seq<OtaEvent> {
    seq![OtaEvent::Line { ready: true }] + Seq::new(
        2 * num_chunks,
        |k: int| if k % 2 == 0 { OtaEvent::Written } else { OtaEvent::Ack(OtaAck::Next) },
    )
}

/// What holds of every step an update goes through: fewer than 20 lines were read
/// while waiting, and the chunk in hand exists.
pub open spec fn ota_step_valid(step: OtaStep, num_chunks: usize) -> bool {
    match step {
        OtaStep::AwaitReady { lines } => lines < OTA_READY_LINES,
        OtaStep::SendChunk { index } => index < num_chunks,
        OtaStep::AwaitAck { index } => index < num_chunks,
        _ => true,
    }
}

/// Every event keeps a step valid, so every step of an update is valid: the wait
/// for `OTA_READY` reads at most 20 lines and only existing chunks are written.
pub proof fn lemma_ota_step_valid(step: OtaStep, ev: OtaEvent, num_chunks: usize)
    requires
        ota_step_valid(step, num_chunks),
    ensures
        ota_step_valid(spec_ota_next(step, ev, num_chunks), num_chunks),
{
}

/// Every step reached from the start, whatever was observed, is valid.
pub proof fn lemma_ota_run_valid(evs: Seq<OtaEvent>, num_chunks: usize)
    ensures
        ota_step_valid(ota_run(OtaStep::AwaitReady { lines: 0 }, evs, num_chunks), num_chunks),
    decreases evs.len(),
{
    if evs.len() > 0 {
        lemma_ota_run_valid(evs.drop_last(), num_chunks);
        lemma_ota_step_valid(
            ota_run(OtaStep::AwaitReady { lines: 0 }, evs.drop_last(), num_chunks),
            evs.last(),
            num_chunks,
        );
    }
}

/// Whether an event is a line that does not announce `OTA_READY`.
pub open spec fn not_ready_line(ev: OtaEvent) -> bool {
    ev == (OtaEvent::Line { ready: false }) || ev == OtaEvent::LineUnreadable
}

/// While no line announces `OTA_READY`, the update keeps waiting for 19 lines and
/// gives up at the 20th.
pub proof fn lemma_ota_ready_wait(evs: Seq<OtaEvent>, num_chunks: usize)
    requires
        forall|k: int| 0 <= k < evs.len() ==> not_ready_line(#[trigger] evs[k]),
    ensures
        ota_run(OtaStep::AwaitReady { lines: 0 }, evs, num_chunks) == (if evs.len()
            < OTA_READY_LINES {
            OtaStep::AwaitReady { lines: evs.len() as usize }
        } else {
            OtaStep::Failed
        }),
    decreases evs.len(),
{
    if evs.len() > 0 {
        let front = evs.drop_last();
        assert forall|k: int| 0 <= k < front.len() implies not_ready_line(#[trigger] front[k]) by {
            assert(front[k] == evs[k]);
        }
        lemma_ota_ready_wait(front, num_chunks);
        assert(not_ready_line(evs[evs.len() - 1]));
    }
}

proof fn lemma_ota_good_prefix(num_chunks: usize, k: nat)
    requires
        k < 2 * num_chunks,
    ensures
        ({
            let g = ota_good_events(num_chunks as nat);
            let i = (k / 2) as usize;
            ota_run(OtaStep::AwaitReady { lines: 0 }, g.take(1 + k as int), num_chunks) == if k % 2
                == 0 {
                OtaStep::SendChunk { index: i }
            } else {
                OtaStep::AwaitAck { index: i }
            }
        }),
    decreases k,
{
    let g = ota_good_events(num_chunks as nat);
    assert(g.take(1 + k as int).drop_last() =~= g.take(k as int));
    assert(g.take(1 + k as int).last() == g[k as int]);
    if k == 0 {
        assert(g.take(0) =~= Seq::<OtaEvent>::empty());
        assert(g[0] == OtaEvent::Line { ready: true });
    } else {
        lemma_ota_good_prefix(num_chunks, (k - 1) as nat);
        assert(g[k as int] == (if (k - 1) % 2 == 0 {
            OtaEvent::Written
        } else {
            OtaEvent::Ack(OtaAck::Next)
        }));
        assert(g.take(k as int) == g.take(1 + (k - 1) as int));
    }
}

/// When everything goes well, the update writes chunks `0, 1, ..., n - 1` in order
/// (chunk `i` is written at event `1 + 2 i`, and its acknowledgement awaited after the
/// next one) and is complete once the last chunk is acknowledged; with no chunk it is
/// complete right after the ready line.
pub proof fn lemma_ota_successful_run(num_chunks: usize, i: usize)
    ensures
        ({
            let g = ota_good_events(num_chunks as nat);
            let start = OtaStep::AwaitReady { lines: 0 };
            &&& i < num_chunks ==> ota_run(start, g.take(1 + 2 * i), num_chunks)
                == (OtaStep::SendChunk { index: i })
            &&& i < num_chunks ==> ota_run(start, g.take(2 + 2 * i), num_chunks)
                == (OtaStep::AwaitAck { index: i })
            &&& ota_run(start, g, num_chunks) == OtaStep::Complete
        }),
{
    let g = ota_good_events(num_chunks as nat);
    if i < num_chunks {
        lemma_ota_good_prefix(num_chunks, (2 * i) as nat);
        lemma_ota_good_prefix(num_chunks, (2 * i + 1) as nat);
        assert((2 * i) / 2 == i);
        assert((2 * i + 1) / 2 == i);
    }
    if num_chunks == 0 {
        assert(g.drop_last() =~= Seq::<OtaEvent>::empty());
    } else {
        let last = (2 * num_chunks - 1) as nat;
        lemma_ota_good_prefix(num_chunks, last);
        assert(last / 2 == num_chunks - 1);
        assert(g.take(1 + last as int) =~= g.drop_last());
        assert(g.last() == OtaEvent::Ack(OtaAck::Next));
    }
}

/// What one event can do: a chunk is only reached from the ready line (chunk 0) or
/// from the acknowledgement of the chunk before it; `OTA_FAIL` after a chunk stops the
/// update and `OTA_DONE` completes it; a failed or complete update stays so.
pub proof fn lemma_ota_transitions(step: OtaStep, ev: OtaEvent, num_chunks: usize)
    ensures
        ({
            let next = spec_ota_next(step, ev, num_chunks);
            &&& next matches OtaStep::SendChunk { index: j } ==> (step == next || (j == 0
                && step is AwaitReady && ev == (OtaEvent::Line { ready: true })) || (j > 0
                && step == (OtaStep::AwaitAck { index: (j - 1) as usize })))
            &&& step is AwaitAck && ev == OtaEvent::Ack(OtaAck::Fail) ==> next == OtaStep::Failed
            &&& step is AwaitAck && ev == OtaEvent::Ack(OtaAck::Done) ==> next
                == OtaStep::Complete
            &&& step == OtaStep::Complete ==> next == OtaStep::Complete
            &&& step == OtaStep::Failed ==> next == OtaStep::Failed
        }),
{
}

} // verus!
