//! The order of the flashing sequence and what happens when a step fails: the
//! application performs each step on the serial port and reports whether it worked.
use vstd::prelude::*;
use crate::bootloader::{SYNC_ATTEMPTS, WRITE_BLOCK_ATTEMPTS};

verus! {

/// A step of the flashing sequence.
#[derive(Clone, Copy, Debug, PartialEq, Eq, Structural)]
pub enum FlashStep {
    /// SYNC handshake, attempt number `attempt` (from 0).
    Sync { attempt: usize },
    /// Switch both sides to the flashing baud rate.
    ChangeBaud,
    /// SPI_ATTACH.
    SpiAttach,
    /// SPI_SET_PARAMS with the flash geometry.
    SetParams,
    /// FLASH_BEGIN (erase).
    Begin,
    /// FLASH_DATA of block `seq`, attempt number `attempt`.
    WriteBlock { seq: u32, attempt: usize },
    /// FLASH_END, staying in the bootloader (its reply is not required).
    End,
    /// Compare the chip's MD5 with the image's; the step fails only on a mismatch.
    VerifyMd5,
    /// Pulse RTS to run the new firmware.
    Reset,
    /// Flashing succeeded.
    Finished,
    /// Flashing stopped on an error.
    Failed,
}

/// The step after `step`, given whether it worked, for an image of `num_blocks` blocks.
pub open spec fn spec_next_step(step: FlashStep, ok: bool, num_blocks: u32) -> FlashStep {
    match step {
        FlashStep::Sync { attempt } => if ok {
            FlashStep::ChangeBaud
        } else if attempt + 1 < SYNC_ATTEMPTS {
            FlashStep::Sync { attempt: (attempt + 1) as usize }
        } else {
            FlashStep::Failed
        },
        FlashStep::ChangeBaud => if ok { FlashStep::SpiAttach } else { FlashStep::Failed },
        FlashStep::SpiAttach => if ok { FlashStep::SetParams } else { FlashStep::Failed },
        FlashStep::SetParams => if ok { FlashStep::Begin } else { FlashStep::Failed },
        FlashStep::Begin => if !ok {
            FlashStep::Failed
        } else if num_blocks == 0 {
            FlashStep::End
        } else {
            FlashStep::WriteBlock { seq: 0, attempt: 0 }
        },
        FlashStep::WriteBlock { seq, attempt } => if ok {
            if seq + 1 < num_blocks {
                FlashStep::WriteBlock { seq: (seq + 1) as u32, attempt: 0 }
            } else {
                FlashStep::End
            }
        } else if attempt + 1 < WRITE_BLOCK_ATTEMPTS {
            FlashStep::WriteBlock { seq, attempt: (attempt + 1) as usize }
        } else {
            FlashStep::Failed
        },
        FlashStep::End => FlashStep::VerifyMd5,
        FlashStep::VerifyMd5 => if ok { FlashStep::Reset } else { FlashStep::Failed },
        FlashStep::Reset => if ok { FlashStep::Finished } else { FlashStep::Failed },
        FlashStep::Finished => FlashStep::Finished,
        FlashStep::Failed => FlashStep::Failed,
    }
}

/// The first step: SYNC, first attempt.
pub fn first_step() -> (s: FlashStep)
    ensures
        s == (FlashStep::Sync { attempt: 0 }),
{
    FlashStep::Sync { attempt: 0 }
}

/// Decide the step after `step`.
pub fn next_step(step: FlashStep, ok: bool, num_blocks: u32) -> (next: FlashStep)
    ensures
        next == spec_next_step(step, ok, num_blocks),
{
    match step {
        FlashStep::Sync { attempt } => {
            if ok {
                FlashStep::ChangeBaud
            } else if attempt < SYNC_ATTEMPTS - 1 {
                FlashStep::Sync { attempt: attempt + 1 }
            } else {
                FlashStep::Failed
            }
        },
        FlashStep::ChangeBaud => if ok {
            FlashStep::SpiAttach
        } else {
            FlashStep::Failed
        },
        FlashStep::SpiAttach => if ok {
            FlashStep::SetParams
        } else {
            FlashStep::Failed
        },
        FlashStep::SetParams => if ok {
            FlashStep::Begin
        } else {
            FlashStep::Failed
        },
        FlashStep::Begin => {
            if !ok {
                FlashStep::Failed
            } else if num_blocks == 0 {
                FlashStep::End
            } else {
                FlashStep::WriteBlock { seq: 0, attempt: 0 }
            }
        },
        FlashStep::WriteBlock { seq, attempt } => {
            if ok {
                if num_blocks > 0 && seq < num_blocks - 1 {
                    FlashStep::WriteBlock { seq: seq + 1, attempt: 0 }
                } else {
                    FlashStep::End
                }
            } else if attempt < WRITE_BLOCK_ATTEMPTS - 1 {
                FlashStep::WriteBlock { seq, attempt: attempt + 1 }
            } else {
                FlashStep::Failed
            }
        },
        FlashStep::End => FlashStep::VerifyMd5,
        FlashStep::VerifyMd5 => if ok {
            FlashStep::Reset
        } else {
            FlashStep::Failed
        },
        FlashStep::Reset => if ok {
            FlashStep::Finished
        } else {
            FlashStep::Failed
        },
        FlashStep::Finished => FlashStep::Finished,
        FlashStep::Failed => FlashStep::Failed,
    }
}

/// The step reached after `k` steps that all worked, starting from `step`.
pub open spec fn run_ok(step: FlashStep, num_blocks: u32, k: nat) -> FlashStep
    decreases k,
{
    if k == 0 {
        step
    } else {
        run_ok(spec_next_step(step, true, num_blocks), num_blocks, (k - 1) as nat)
    }
}

proof fn lemma_run_ok_split(step: FlashStep, n: u32, a: nat, b: nat)
    ensures
        run_ok(step, n, a + b) == run_ok(run_ok(step, n, a), n, b),
    decreases a,
{
    if a > 0 {
        lemma_run_ok_split(spec_next_step(step, true, n), n, (a - 1) as nat, b);
        assert((a + b - 1) as nat == (a - 1) as nat + b);
    }
}

proof fn lemma_blocks_in_order(n: u32, i: nat)
    requires
        i < n,
    ensures
        run_ok(FlashStep::WriteBlock { seq: 0, attempt: 0 }, n, i) == (FlashStep::WriteBlock {
            seq: i as u32,
            attempt: 0,
        }),
    decreases i,
{
    if i > 0 {
        lemma_blocks_in_order(n, (i - 1) as nat);
        lemma_run_ok_split(FlashStep::WriteBlock { seq: 0, attempt: 0 }, n, (i - 1) as nat, 1);
        reveal_with_fuel(run_ok, 2);
    }
}

/// When every step works, the sequence syncs, sets up the chip, writes blocks
/// `0, 1, ..., n - 1` in order (block `i` at step `5 + i`), ends, verifies and resets,
/// and is finished after `8 + n` steps.
pub proof fn lemma_successful_run(n: u32, i: nat)
    ensures
        run_ok(FlashStep::Sync { attempt: 0 }, n, 5) == (if n == 0 {
            FlashStep::End
        } else {
            FlashStep::WriteBlock { seq: 0, attempt: 0 }
        }),
        i < n ==> run_ok(FlashStep::Sync { attempt: 0 }, n, 5 + i) == (FlashStep::WriteBlock {
            seq: i as u32,
            attempt: 0,
        }),
        run_ok(FlashStep::Sync { attempt: 0 }, n, 5 + n as nat) == FlashStep::End,
        run_ok(FlashStep::Sync { attempt: 0 }, n, 8 + n as nat) == FlashStep::Finished,
{
    let start = FlashStep::Sync { attempt: 0 };
    reveal_with_fuel(run_ok, 6);
    assert(run_ok(start, n, 5) == (if n == 0 {
        FlashStep::End
    } else {
        FlashStep::WriteBlock { seq: 0, attempt: 0 }
    }));
    if i < n {
        lemma_run_ok_split(start, n, 5, i);
        lemma_blocks_in_order(n, i);
    }
    if n == 0 {
        assert(run_ok(start, n, 5 + n as nat) == FlashStep::End);
    } else {
        let last = (n - 1) as nat;
        lemma_run_ok_split(start, n, 5, last);
        lemma_blocks_in_order(n, last);
        lemma_run_ok_split(start, n, 5 + last, 1);
        assert(run_ok(start, n, 5 + n as nat) == FlashStep::End);
    }
    lemma_run_ok_split(start, n, 5 + n as nat, 3);
    assert(run_ok(start, n, 8 + n as nat) == FlashStep::Finished);
}

/// A failing step never moves the sequence forward: it either retries the same
/// SYNC or block with the next attempt number, within the attempt limits, or stops.
pub proof fn lemma_failure_never_advances(step: FlashStep, n: u32)
    ensures
        ({
            let next = spec_next_step(step, false, n);
            match step {
                FlashStep::Sync { attempt } => next == FlashStep::Failed || (next
                    == FlashStep::Sync { attempt: (attempt + 1) as usize } && attempt + 1
                    < SYNC_ATTEMPTS),
                FlashStep::WriteBlock { seq, attempt } => next == FlashStep::Failed || (next
                    == FlashStep::WriteBlock { seq, attempt: (attempt + 1) as usize } && attempt
                    + 1 < WRITE_BLOCK_ATTEMPTS),
                FlashStep::End => next == FlashStep::VerifyMd5,
                FlashStep::Finished => next == FlashStep::Finished,
                _ => next == FlashStep::Failed,
            }
        }),
{
}

} // verus!
