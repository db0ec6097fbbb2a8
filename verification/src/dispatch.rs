//! The dispatch of moves: their packing into the robot's write payload, the
//! time they are expected to take, and the steps that carry a dispatch from
//! the write to the robot's report that it has made every move.

use crate::error::ControllerError;
use crate::face_rotation::FaceRotation;
use crate::MAX_MOVES_PER_WRITE;
use vstd::prelude::*;

verus! {

/// The number of bytes in one write to the robot: two move slots each.
pub const PAYLOAD_LEN: usize = 18;

/// The nibble that marks a move slot as unused.
pub const UNUSED_SLOT: u8 = 0x0f;

/// The time in milliseconds that a quarter turn is expected to take.
pub const QUANTUM_TURN_DURATION_MS: usize = 150;

/// The time in milliseconds that a half turn is expected to take.
pub const DOUBLE_TURN_DURATION_MS: usize = 250;

/// The share of the expected duration, in quarters, that passes before the
/// first status read.
pub const SETTLE_QUARTERS: u64 = 3;

/// The pause in milliseconds between two status reads.
pub const POLL_INTERVAL_MS: u64 = 100;

/// Whether a device code stands for a half turn: the middle code of each
/// face's block of three.
pub open spec fn is_double_turn(m: u8) -> bool {
    m % 3 == 1
}

/// The expected duration in milliseconds of the move with code `m`.
pub open spec fn duration_ms(m: u8) -> nat {
    if is_double_turn(m) {
        DOUBLE_TURN_DURATION_MS as nat
    } else {
        QUANTUM_TURN_DURATION_MS as nat
    }
}

/// The expected duration in milliseconds of a sequence of moves: the sum of
/// the durations of its moves.
pub open spec fn total_duration_ms(codes: Seq<u8>) -> nat
    decreases codes.len(),
{
    if codes.len() == 0 {
        0
    } else {
        total_duration_ms(codes.drop_last()) + duration_ms(codes.last())
    }
}

/// The nibble in move slot `i` of the payload for `codes`: the code of move
/// `i`, or the unused marker past the last move.
pub open spec fn slot(codes: Seq<u8>, i: int) -> int {
    if 0 <= i < codes.len() {
        codes[i] as int
    } else {
        UNUSED_SLOT as int
    }
}

/// What byte `k` of the payload for `codes` holds: slot `2k` in its high
/// nibble and slot `2k + 1` in its low nibble.
pub open spec fn packed_byte(codes: Seq<u8>, k: int) -> int {
    16 * slot(codes, 2 * k) + slot(codes, 2 * k + 1)
}

/// The payload for `codes`, byte by byte.
pub open spec fn packed(codes: Seq<u8>) -> Seq<u8> {
    Seq::new(PAYLOAD_LEN as nat, |k: int| packed_byte(codes, k) as u8)
}

/// Whether the payload can hold `codes`: whether what each of its bytes is
/// to hold is a byte.
pub open spec fn fits_payload(codes: Seq<u8>) -> bool {
    forall|k: int| 0 <= k < PAYLOAD_LEN ==> #[trigger] packed_byte(codes, k) <= u8::MAX
}

/// Whether every code fits the nibble of a move slot.
pub open spec fn fits_slots(codes: Seq<u8>) -> bool {
    forall|i: int| 0 <= i < codes.len() ==> #[trigger] codes[i] <= UNUSED_SLOT
}

/// The payload can hold any codes that fit the nibbles of their slots.
pub proof fn lemma_slots_fit_payload(codes: Seq<u8>)
    requires
        fits_slots(codes),
    ensures
        fits_payload(codes),
{
    assert forall|k: int| 0 <= k < PAYLOAD_LEN implies #[trigger] packed_byte(codes, k)
        <= u8::MAX by {
        assert(slot(codes, 2 * k) <= 15);
        assert(slot(codes, 2 * k + 1) <= 15);
    }
}

/// Whether a device code stands for a half turn.
pub fn is_double_turn_move(m: u8) -> (double: bool)
    ensures
        double == is_double_turn(m),
{
    m % 3 == 1
}

/// The expected duration in milliseconds of the move with code `m`.
pub fn move_duration(m: u8) -> (ms: usize)
    ensures
        ms == duration_ms(m),
{
    if is_double_turn_move(m) {
        DOUBLE_TURN_DURATION_MS
    } else {
        QUANTUM_TURN_DURATION_MS
    }
}

/// No sequence takes longer than if all its moves were half turns.
pub proof fn lemma_total_duration_bound(codes: Seq<u8>)
    ensures
        150 * codes.len() <= total_duration_ms(codes) <= 250 * codes.len(),
    decreases codes.len(),
{
    if codes.len() > 0 {
        lemma_total_duration_bound(codes.drop_last());
    }
}

/// The expected duration in milliseconds of a sequence of moves.
pub fn expected_duration(codes: &[u8]) -> (ms: usize)
    requires
        250 * codes@.len() <= usize::MAX,
    ensures
        ms == total_duration_ms(codes@),
{
    let mut ms: usize = 0;
    let mut i: usize = 0;
    while i < codes.len()
        invariant
            i <= codes@.len(),
            250 * codes@.len() <= usize::MAX,
            ms == total_duration_ms(codes@.take(i as int)),
        decreases codes@.len() - i,
    {
        proof {
            lemma_total_duration_bound(codes@.take(i as int));
            assert(codes@.take(i + 1).drop_last() =~= codes@.take(i as int));
        }
        ms = ms + move_duration(codes[i]);
        i = i + 1;
    }
    proof {
        assert(codes@.take(i as int) =~= codes@);
    }
    ms
}

/// The delay in milliseconds between the write and the first status read
/// for moves that are expected to take `expected_ms`: three quarters of
/// that, rounded down.
pub open spec fn settled_ms(expected_ms: nat) -> int {
    (SETTLE_QUARTERS * expected_ms) / 4
}

/// The delay in milliseconds between the write and the first status read:
/// three quarters of the expected duration, rounded down.
pub fn settling_delay(expected_ms: usize) -> (ms: u64)
    ensures
        ms == settled_ms(expected_ms as nat),
{
    let whole: u64 = expected_ms as u64;
    let quarter: u64 = whole / 4;
    let rest: u64 = whole % 4;
    quarter * SETTLE_QUARTERS + (rest * SETTLE_QUARTERS) / 4
}

/// Whether the payload can hold `codes`.
pub fn codes_fit_payload(codes: &[u8]) -> (fit: bool)
    ensures
        fit == fits_payload(codes@),
{
    let n: usize = codes.len();
    let mut k: usize = 0;
    while k < PAYLOAD_LEN
        invariant
            n == codes@.len(),
            k <= PAYLOAD_LEN,
            forall|j: int| 0 <= j < k ==> #[trigger] packed_byte(codes@, j) <= u8::MAX,
        decreases PAYLOAD_LEN - k,
    {
        let high: u16 = if 2 * k < n {
            codes[2 * k] as u16
        } else {
            UNUSED_SLOT as u16
        };
        let low: u16 = if 2 * k + 1 < n {
            codes[2 * k + 1] as u16
        } else {
            UNUSED_SLOT as u16
        };
        if 16 * high + low > 255 {
            assert(packed_byte(codes@, k as int) > u8::MAX);
            return false;
        }
        assert(packed_byte(codes@, k as int) <= u8::MAX);
        k = k + 1;
    }
    true
}

/// Packs move codes into the payload of one write, two to a byte, the
/// earlier move in the high nibble. Slots past the last move hold the unused
/// marker, so a byte without a move reads `0xff`. The payload has room for
/// `MAX_MOVES_PER_WRITE` codes.
pub fn pack_moves(codes: &[u8]) -> (bytes: [u8; 18])
    requires
        codes@.len() <= MAX_MOVES_PER_WRITE,
        fits_payload(codes@),
    ensures
        bytes@ == packed(codes@),
{
    let n: usize = codes.len();
    let mut bytes: [u8; 18] = [0u8; 18];
    let mut i: usize = 0;
    while i < n
        invariant
            n == codes@.len(),
            n <= MAX_MOVES_PER_WRITE,
            i <= n,
            fits_payload(codes@),
            forall|k: int| 0 <= k && 2 * k + 1 < i ==> #[trigger] bytes@[k] == packed_byte(codes@, k),
            i % 2 == 1 ==> bytes@[i as int / 2] == 16 * codes@[i - 1],
            forall|k: int| i <= 2 * k && k < PAYLOAD_LEN ==> #[trigger] bytes@[k] == 0,
        decreases n - i,
    {
        let byte_index: usize = i / 2;
        assert(packed_byte(codes@, byte_index as int) <= u8::MAX);
        if i % 2 == 0 {
            bytes[byte_index] = codes[i] * 0x10;
        } else {
            bytes[byte_index] = bytes[byte_index] + codes[i];
        }
        i = i + 1;
    }
    if n % 2 == 1 {
        assert(packed_byte(codes@, n as int / 2) <= u8::MAX);
        bytes[n / 2] = bytes[n / 2] + UNUSED_SLOT;
    }
    let used: usize = (n + 1) / 2;
    let mut k: usize = used;
    while k < PAYLOAD_LEN
        invariant
            n == codes@.len(),
            used == (n + 1) / 2,
            used <= k <= PAYLOAD_LEN,
            forall|j: int| 0 <= j < used ==> #[trigger] bytes@[j] == packed_byte(codes@, j),
            forall|j: int| used <= j < k ==> #[trigger] bytes@[j] == 0xff,
        decreases PAYLOAD_LEN - k,
    {
        bytes[k] = 0xff;
        k = k + 1;
    }
    proof {
        assert(bytes@ =~= packed(codes@));
    }
    bytes
}

/// The codes of the rotations among `moves`, in their order; `Invalid`
/// entries are left out.
pub open spec fn encoded(moves: Seq<FaceRotation>) -> Seq<u8> {
    moves.filter(|m: FaceRotation| m.is_valid()).map_values(|m: FaceRotation| m.code())
}

/// The codes of rotations fit the slots of the payload, and so the payload
/// can hold them.
pub proof fn lemma_encoded_fits(moves: Seq<FaceRotation>)
    ensures
        fits_slots(encoded(moves)),
        fits_payload(encoded(moves)),
        encoded(moves).len() <= moves.len(),
{
    let valid = moves.filter(|m: FaceRotation| m.is_valid());
    moves.lemma_filter_len(|m: FaceRotation| m.is_valid());
    assert forall|i: int| 0 <= i < encoded(moves).len() implies #[trigger] encoded(moves)[i]
        <= 0x0f by {
        moves.lemma_filter_pred(|m: FaceRotation| m.is_valid(), i);
        assert(valid[i].is_valid());
    }
    lemma_slots_fit_payload(encoded(moves));
}

/// Turns rotations into device codes, dropping every `Invalid` entry
/// without complaint.
pub fn encode_moves(moves: &[FaceRotation]) -> (codes: Vec<u8>)
    ensures
        codes@ == encoded(moves@),
{
    let mut codes: Vec<u8> = Vec::new();
    let mut i: usize = 0;
    proof {
        reveal(Seq::filter);
        assert(moves@.take(0).filter(|m: FaceRotation| m.is_valid()) =~= Seq::empty());
    }
    while i < moves.len()
        invariant
            i <= moves@.len(),
            codes@ == encoded(moves@.take(i as int)),
        decreases moves@.len() - i,
    {
        let m = moves[i];
        proof {
            let valid = |m: FaceRotation| m.is_valid();
            assert(moves@.take(i + 1) =~= moves@.take(i as int).push(m));
            moves@.take(i as int).lemma_filter_push(m, valid);
            if m.is_valid() {
                assert(encoded(moves@.take(i + 1)) =~= encoded(moves@.take(i as int)).push(
                    m.code(),
                ));
            }
        }
        match m {
            FaceRotation::Invalid => {},
            _ => {
                codes.push(u8::from(m));
            },
        }
        i = i + 1;
    }
    proof {
        assert(moves@.take(i as int) =~= moves@);
    }
    codes
}

/// The number of moves that the robot still has to make, as a read of its
/// status characteristic reports it: the first byte, or none if the read
/// came back empty.
pub open spec fn remaining(status: Seq<u8>) -> u8 {
    if status.len() == 0 {
        0
    } else {
        status[0]
    }
}

/// What the driver reports back after carrying out a step.
#[derive(Debug, PartialEq, Eq, Hash, Clone, Copy, Structural)]
pub enum DispatchEvent {
    /// The write or the pause is over.
    Completed,
    /// The status was read, and the robot has this many moves left.
    Remaining(u8),
    /// The Bluetooth stack reported a failure.
    Failed,
}

/// What the driver has to do next to carry a sequence of moves through.
#[derive(Debug, PartialEq, Eq, Clone, Copy)]
pub enum DispatchStep {
    /// Write the payload to the move characteristic, without response.
    Write { payload: [u8; 18], settle_ms: u64 },
    /// Pause for `ms` milliseconds while the robot starts on the moves.
    Settle { ms: u64 },
    /// Read the status characteristic.
    Poll,
    /// Pause for `POLL_INTERVAL_MS` milliseconds before the next read.
    Wait,
    /// The robot has made all moves.
    Finish,
    /// Give up with this error.
    Fail(ControllerError),
}

impl DispatchStep {
    /// Whether nothing is left to do.
    pub open spec fn is_final(self) -> bool {
        self is Finish || self is Fail
    }

    /// The step that follows once the driver reports `event`. A failure
    /// ends the dispatch; a status read of zero finishes it, any other is
    /// followed by a pause and another read. An event that does not answer
    /// the step changes nothing.
    pub open spec fn after(self, event: DispatchEvent) -> DispatchStep {
        match (self, event) {
            (DispatchStep::Finish, _) => self,
            (DispatchStep::Fail(_), _) => self,
            (_, DispatchEvent::Failed) => DispatchStep::Fail(ControllerError::Transport),
            (DispatchStep::Write { payload, settle_ms }, DispatchEvent::Completed) => {
                DispatchStep::Settle { ms: settle_ms }
            },
            (DispatchStep::Settle { ms }, DispatchEvent::Completed) => DispatchStep::Poll,
            (DispatchStep::Poll, DispatchEvent::Remaining(n)) => if n == 0 {
                DispatchStep::Finish
            } else {
                DispatchStep::Wait
            },
            (DispatchStep::Wait, DispatchEvent::Completed) => DispatchStep::Poll,
            _ => self,
        }
    }

    /// The step that follows once the driver reports `event`.
    pub fn next(self, event: DispatchEvent) -> (step: DispatchStep)
        ensures
            step == self.after(event),
    {
        match self {
            DispatchStep::Finish => self,
            DispatchStep::Fail(_) => self,
            DispatchStep::Write { payload, settle_ms } => match event {
                DispatchEvent::Failed => DispatchStep::Fail(ControllerError::Transport),
                DispatchEvent::Completed => DispatchStep::Settle { ms: settle_ms },
                DispatchEvent::Remaining(_) => self,
            },
            DispatchStep::Settle { ms } => match event {
                DispatchEvent::Failed => DispatchStep::Fail(ControllerError::Transport),
                DispatchEvent::Completed => DispatchStep::Poll,
                DispatchEvent::Remaining(_) => self,
            },
            DispatchStep::Poll => match event {
                DispatchEvent::Failed => DispatchStep::Fail(ControllerError::Transport),
                DispatchEvent::Completed => self,
                DispatchEvent::Remaining(n) => if n == 0 {
                    DispatchStep::Finish
                } else {
                    DispatchStep::Wait
                },
            },
            DispatchStep::Wait => match event {
                DispatchEvent::Failed => DispatchStep::Fail(ControllerError::Transport),
                DispatchEvent::Completed => DispatchStep::Poll,
                DispatchEvent::Remaining(_) => self,
            },
        }
    }
}

/// The first step of a dispatch of `codes`: the write of their payload,
/// with the settling delay that their expected duration calls for.
pub open spec fn planned(codes: Seq<u8>, step: DispatchStep) -> bool {
    &&& step matches DispatchStep::Write { payload, settle_ms }
    &&& payload@ == packed(codes)
    &&& settle_ms == settled_ms(total_duration_ms(codes))
}

/// Plans the dispatch of up to `MAX_MOVES_PER_WRITE` move codes. More are
/// refused before anything is written.
pub fn plan_dispatch(codes: &[u8]) -> (plan: Result<DispatchStep, ControllerError>)
    requires
        codes@.len() <= MAX_MOVES_PER_WRITE ==> fits_payload(codes@),
    ensures
        match plan {
            Ok(step) => codes@.len() <= MAX_MOVES_PER_WRITE && planned(codes@, step),
            Err(e) => codes@.len() > MAX_MOVES_PER_WRITE && e == ControllerError::TooManyMoves,
        },
{
    if codes.len() > MAX_MOVES_PER_WRITE {
        return Err(ControllerError::TooManyMoves);
    }
    let payload = pack_moves(codes);
    let settle_ms = settling_delay(expected_duration(codes));
    Ok(DispatchStep::Write { payload, settle_ms })
}

/// The number of moves that the robot still has to make, as a read of its
/// status characteristic reports it.
pub fn remaining_moves(status: &[u8]) -> (left: u8)
    ensures
        left == remaining(status@),
{
    if status.len() == 0 {
        0
    } else {
        status[0]
    }
}

impl DispatchStep {
    /// The step reached from this one when the driver reports `events` one
    /// after another.
    pub open spec fn after_all(self, events: Seq<DispatchEvent>) -> DispatchStep
        decreases events.len(),
    {
        if events.len() == 0 {
            self
        } else {
            self.after_all(events.drop_last()).after(events.last())
        }
    }
}

/// What a driver reports while it polls and the robot answers with
/// `reads`, one after another: each read, and between two reads the end of
/// the pause.
pub open spec fn poll_events(reads: Seq<u8>) -> Seq<DispatchEvent>
    decreases reads.len(),
{
    if reads.len() == 0 {
        Seq::empty()
    } else if reads.len() == 1 {
        seq![DispatchEvent::Remaining(reads[0])]
    } else {
        poll_events(reads.drop_last()) + seq![
            DispatchEvent::Completed,
            DispatchEvent::Remaining(reads.last()),
        ]
    }
}

/// Reporting one more event leads one step further.
pub proof fn lemma_after_all_push(step: DispatchStep, events: Seq<DispatchEvent>, event: DispatchEvent)
    ensures
        step.after_all(events.push(event)) == step.after_all(events).after(event),
{
    assert(events.push(event).drop_last() =~= events);
}

/// A pause and a further read lead from the step after the reads so far to
/// the step that the new read calls for.
proof fn lemma_poll_once_more(reads: Seq<u8>)
    requires
        reads.len() > 1,
    ensures
        DispatchStep::Poll.after_all(poll_events(reads)) == DispatchStep::Poll.after_all(
            poll_events(reads.drop_last()),
        ).after(DispatchEvent::Completed).after(DispatchEvent::Remaining(reads.last())),
{
    let before = poll_events(reads.drop_last());
    let paused = before.push(DispatchEvent::Completed);
    assert(poll_events(reads) =~= paused.push(DispatchEvent::Remaining(reads.last())));
    lemma_after_all_push(DispatchStep::Poll, before, DispatchEvent::Completed);
    lemma_after_all_push(DispatchStep::Poll, paused, DispatchEvent::Remaining(reads.last()));
}

/// While the robot reports moves left, polling goes on: every such read is
/// followed by a pause.
pub proof fn lemma_polling_waits_while_busy(reads: Seq<u8>)
    requires
        reads.len() > 0,
        forall|i: int| 0 <= i < reads.len() ==> reads[i] != 0,
    ensures
        DispatchStep::Poll.after_all(poll_events(reads)) == DispatchStep::Wait,
    decreases reads.len(),
{
    if reads.len() == 1 {
        lemma_after_all_push(DispatchStep::Poll, Seq::empty(), DispatchEvent::Remaining(reads[0]));
        assert(poll_events(reads) =~= Seq::empty().push(DispatchEvent::Remaining(reads[0])));
    } else {
        lemma_polling_waits_while_busy(reads.drop_last());
        lemma_poll_once_more(reads);
    }
}

/// Polling finishes with the first read that reports no move left, and not
/// before: after each earlier read the driver is told to pause and read
/// again.
pub proof fn lemma_polling_finishes_on_first_idle_read(reads: Seq<u8>)
    requires
        reads.len() > 0,
        forall|i: int| 0 <= i < reads.len() - 1 ==> reads[i] != 0,
        reads.last() == 0,
    ensures
        DispatchStep::Poll.after_all(poll_events(reads)) == DispatchStep::Finish,
        forall|k: int|
            0 < k < reads.len() ==> DispatchStep::Poll.after_all(
                #[trigger] poll_events(reads.take(k)),
            ) == DispatchStep::Wait,
{
    assert forall|k: int| 0 < k < reads.len() implies DispatchStep::Poll.after_all(
        #[trigger] poll_events(reads.take(k)),
    ) == DispatchStep::Wait by {
        lemma_polling_waits_while_busy(reads.take(k));
    }
    if reads.len() == 1 {
        lemma_after_all_push(DispatchStep::Poll, Seq::empty(), DispatchEvent::Remaining(reads[0]));
        assert(poll_events(reads) =~= Seq::empty().push(DispatchEvent::Remaining(reads[0])));
    } else {
        assert(reads.drop_last() =~= reads.take(reads.len() - 1));
        lemma_polling_waits_while_busy(reads.drop_last());
        lemma_poll_once_more(reads);
    }
}

/// Once the write and the settling pause are over, the driver is told to
/// read the status.
pub proof fn lemma_dispatch_starts_with_write_and_pause(step: DispatchStep)
    requires
        step is Write,
    ensures
        step.after(DispatchEvent::Completed) is Settle,
        step.after(DispatchEvent::Completed)->ms == step->settle_ms,
        step.after(DispatchEvent::Completed).after(DispatchEvent::Completed) is Poll,
{
}

/// A step that is final stays as it is, whatever is reported.
pub proof fn lemma_final_step_stays(step: DispatchStep, event: DispatchEvent)
    requires
        step.is_final(),
    ensures
        step.after(event) == step,
{
}

/// A failure ends any dispatch that is still under way: nothing is tried
/// again.
pub proof fn lemma_failure_ends_dispatch(step: DispatchStep)
    requires
        !step.is_final(),
    ensures
        step.after(DispatchEvent::Failed) == DispatchStep::Fail(ControllerError::Transport),
{
}

} // verus!
