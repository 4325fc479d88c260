//! The lifecycle of the single shared advertising slot.
//!
//! [`AdvertisementController`] owns the slot. A broadcast request is validated
//! synchronously; once accepted, the caller is done and an unverified driver
//! performs the returned [`Action`]s — run the external start command, hold
//! for the requested duration, run the external stop command — reporting each
//! outcome back through the `on_*` methods. The controller decides, the
//! driver only executes, so every decision is verified:
//!
//! - requests against a busy slot queue behind the lifecycle in progress and
//!   never preempt it (the slot serializes);
//! - a stop is owed exactly once per successful start, and is issued no
//!   earlier than the requested duration after the start completed;
//! - a failed start ends its lifecycle with nothing owed;
//! - a failed stop still frees the slot, so one stubborn teardown can never
//!   wedge it.

use vstd::prelude::*;

use crate::history::CommandRecord;
use crate::history::ends_open;
use crate::history::lemma_push_keeps_bracketing;
use crate::history::well_bracketed;

verus! {

/// The fixed hardware advertising instance the controller drives.
pub const ADVERTISING_INSTANCE: u8 = 1;

/// The longest hold a single request may ask for: one day. A cap keeps a
/// mistyped duration from occupying the slot indefinitely.
pub const MAX_DURATION_SECS: u64 = 86400;

/// Why a broadcast request was rejected before it was scheduled.
#[derive(Clone, Copy, Debug, PartialEq, Eq, Structural)]
pub enum ValidationError {
    /// The payload holds a byte that cannot safely stand as one argument of
    /// the external command.
    MalformedPayload,
    /// The requested duration exceeds [`MAX_DURATION_SECS`].
    InvalidDuration,
}

/// The HTTP status that reports a rejected request: a bad request either way.
pub open spec fn validation_error_status(e: ValidationError) -> u16 {
    match e {
        ValidationError::MalformedPayload => 400,
        ValidationError::InvalidDuration => 400,
    }
}

impl ValidationError {
    /// The HTTP status code that reports this error to the caller.
    pub fn http_status(&self) -> (s: u16)
        ensures
            s == validation_error_status(*self),
    {
        match self {
            ValidationError::MalformedPayload => 400,
            ValidationError::InvalidDuration => 400,
        }
    }
}

/// The status returned the moment a request is accepted and scheduled.
pub const STATUS_ACCEPTED: u16 = 202;

/// A payload byte the external command can safely take inside one discrete
/// argument: printable ASCII, so no control byte can break the command line
/// apart or alter its structure.
pub open spec fn payload_byte_ok(b: u8) -> bool {
    0x20 <= b < 0x7f
}

/// Whether a whole payload is safe to hand to the external command.
pub open spec fn payload_ok(p: Seq<u8>) -> bool {
    forall|i: int| 0 <= i < p.len() ==> payload_byte_ok(#[trigger] p[i])
}

/// What validation decides for every request: a payload with an unsafe byte
/// is malformed, a duration over the cap is invalid, everything else is
/// accepted.
pub open spec fn validate_spec(payload: Seq<u8>, duration_secs: u64) -> Result<
    (),
    ValidationError,
> {
    if !payload_ok(payload) {
        Err(ValidationError::MalformedPayload)
    } else if duration_secs > MAX_DURATION_SECS {
        Err(ValidationError::InvalidDuration)
    } else {
        Ok(())
    }
}

/// Whether a request passes validation.
pub open spec fn request_ok(payload: Seq<u8>, duration_secs: u64) -> bool {
    validate_spec(payload, duration_secs) is Ok
}

/// Checks one request before it is accepted, exactly as [`validate_spec`]
/// says.
pub fn validate_request(payload: &[u8], duration_secs: u64) -> (r: Result<(), ValidationError>)
    ensures
        r == validate_spec(payload@, duration_secs),
{
    let mut i: usize = 0;
    while i < payload.len()
        invariant
            i <= payload@.len(),
            forall|j: int| 0 <= j < i ==> payload_byte_ok(#[trigger] payload@[j]),
        decreases payload@.len() - i,
    {
        let b = payload[i];
        if b < 0x20 || b >= 0x7f {
            proof {
                assert(!payload_byte_ok(payload@[i as int]));
            }
            return Err(ValidationError::MalformedPayload);
        }
        i = i + 1;
    }
    if duration_secs > MAX_DURATION_SECS {
        return Err(ValidationError::InvalidDuration);
    }
    Ok(())
}

/// One broadcast request: the payload for the external start command and how
/// long the advertisement is to be held.
#[derive(Debug)]
pub struct BroadcastRequest {
    pub payload: Vec<u8>,
    pub duration_secs: u64,
}

impl View for BroadcastRequest {
    type V = (Seq<u8>, u64);

    open spec fn view(&self) -> (Seq<u8>, u64) {
        (self.payload@, self.duration_secs)
    }
}

/// Where the slot stands in its lifecycle.
#[derive(Clone, Copy, Debug, PartialEq, Eq, Structural)]
pub enum SlotState {
    /// Nothing running, nothing owed.
    Idle,
    /// The start command was handed to the driver; its outcome is pending.
    StartPending,
    /// The start succeeded; the advertisement is held until its deadline.
    Advertising,
    /// The stop command was handed to the driver; its outcome is pending.
    StopPending,
}

/// What the driver must do next. Every action is the controller's decision;
/// the driver only carries it out and reports what the external command said.
#[derive(Debug)]
pub enum Action {
    /// Run the external start command with this payload on this instance,
    /// passing both as discrete arguments, and report the outcome through
    /// [`AdvertisementController::on_start_result`].
    IssueStart { payload: Vec<u8>, instance: u8 },
    /// Suspend — without holding any lock — until the given moment, then call
    /// [`AdvertisementController::on_hold_elapsed`].
    Hold { until: u64 },
    /// Run the external stop command for this instance and report the outcome
    /// through [`AdvertisementController::on_stop_result`].
    IssueStop { instance: u8 },
    /// Nothing to drive right now.
    Wait,
}

/// Whether a queued request would pass validation.
pub open spec fn queued_ok(job: (Seq<u8>, u64)) -> bool {
    request_ok(job.0, job.1)
}

/// Owns the single advertising slot: validates requests, serializes access to
/// the slot, and decides every start, hold and stop.
pub struct AdvertisementController {
    slot: SlotState,
    current: Option<BroadcastRequest>,
    hold_deadline: u64,
    waiting: Vec<BroadcastRequest>,
    log: Ghost<Seq<CommandRecord>>,
}

/// How a freed slot is handed on: with nothing waiting the controller goes
/// idle; otherwise the oldest waiting request takes the slot and its start
/// command is issued at once.
pub open spec fn hands_slot_on(
    pre: AdvertisementController,
    post: AdvertisementController,
    a: Action,
) -> bool {
    if pre.queue().len() == 0 {
        &&& post.slot_state() == SlotState::Idle
        &&& post.current_job() is None
        &&& post.queue() == pre.queue()
        &&& a is Wait
    } else {
        &&& post.slot_state() == SlotState::StartPending
        &&& post.current_job() == Some(pre.queue()[0])
        &&& post.queue() == pre.queue().skip(1)
        &&& a matches Action::IssueStart { payload, instance } && payload@ == pre.queue()[0].0
            && instance == ADVERTISING_INSTANCE
    }
}

impl AdvertisementController {
    /// Where the slot stands.
    pub closed spec fn slot_state(&self) -> SlotState {
        self.slot
    }

    /// The request whose lifecycle owns the slot, if any.
    pub closed spec fn current_job(&self) -> Option<(Seq<u8>, u64)> {
        match self.current {
            Some(r) => Some(r@),
            None => None,
        }
    }

    /// The accepted requests waiting for the slot, oldest first.
    pub closed spec fn queue(&self) -> Seq<(Seq<u8>, u64)> {
        self.waiting@.map_values(|r: BroadcastRequest| r@)
    }

    /// The moment until which the current advertisement is to be held; only
    /// meaningful while the slot is advertising.
    pub closed spec fn hold_until(&self) -> u64 {
        self.hold_deadline
    }

    /// Every completed interaction with the external commands, in order.
    pub closed spec fn history(&self) -> Seq<CommandRecord> {
        self.log@
    }

    /// The controller's invariant: the recorded history is well bracketed and
    /// agrees with the slot's state — a stop is owed exactly while the slot
    /// advertises or its stop is pending — the slot is idle only with nothing
    /// waiting, and no request that failed validation is ever held.
    pub open spec fn wf(&self) -> bool {
        &&& well_bracketed(self.history())
        &&& match self.slot_state() {
            SlotState::Idle => self.current_job() is None && self.queue().len() == 0 && !ends_open(
                self.history(),
            ),
            SlotState::StartPending => self.current_job() is Some && !ends_open(self.history()),
            SlotState::Advertising => self.current_job() is Some && ends_open(self.history()),
            SlotState::StopPending => self.current_job() is Some && ends_open(self.history()),
        }
        &&& self.current_job() matches Some(job) ==> queued_ok(job)
        &&& forall|i: int| 0 <= i < self.queue().len() ==> queued_ok(#[trigger] self.queue()[i])
    }

    /// A fresh controller: slot idle, nothing waiting, no command yet issued.
    pub fn new() -> (c: AdvertisementController)
        ensures
            c.wf(),
            c.slot_state() == SlotState::Idle,
            c.queue() == Seq::<(Seq<u8>, u64)>::empty(),
            c.history() == Seq::<CommandRecord>::empty(),
    {
        let c = AdvertisementController {
            slot: SlotState::Idle,
            current: None,
            hold_deadline: 0,
            waiting: Vec::new(),
            log: Ghost(Seq::empty()),
        };
        proof {
            assert(c.queue() =~= Seq::<(Seq<u8>, u64)>::empty());
        }
        c
    }

    /// Accepts or rejects one broadcast request, synchronously. A rejected
    /// request leaves the controller untouched. An accepted one either claims
    /// the idle slot — the returned action tells the driver to issue the
    /// start command — or joins the queue behind the lifecycle in progress,
    /// to be started once that lifecycle's stop completes: requests
    /// serialize, they never preempt a running advertisement.
    pub fn submit(&mut self, payload: Vec<u8>, duration_secs: u64) -> (r: Result<
        Action,
        ValidationError,
    >)
        requires
            old(self).wf(),
        ensures
            final(self).wf(),
            final(self).history() == old(self).history(),
            final(self).hold_until() == old(self).hold_until(),
            validate_spec(payload@, duration_secs) matches Err(e) ==> r == Err::<
                Action,
                ValidationError,
            >(e) && *final(self) == *old(self),
            validate_spec(payload@, duration_secs) is Ok ==> {
                &&& old(self).slot_state() == SlotState::Idle ==> {
                    &&& final(self).slot_state() == SlotState::StartPending
                    &&& final(self).current_job() == Some((payload@, duration_secs))
                    &&& final(self).queue() == old(self).queue()
                    &&& r matches Ok(a) && a matches Action::IssueStart { payload: p, instance }
                        && p@ == payload@ && instance == ADVERTISING_INSTANCE
                }
                &&& old(self).slot_state() != SlotState::Idle ==> {
                    &&& final(self).slot_state() == old(self).slot_state()
                    &&& final(self).current_job() == old(self).current_job()
                    &&& final(self).queue() == old(self).queue().push((payload@, duration_secs))
                    &&& r matches Ok(a) && a is Wait
                }
            },
    {
        match validate_request(payload.as_slice(), duration_secs) {
            Err(e) => Err(e),
            Ok(()) => {
                if self.slot == SlotState::Idle {
                    let issued = payload.clone();
                    proof {
                        assert(issued@ =~= payload@);
                    }
                    self.slot = SlotState::StartPending;
                    self.current = Some(BroadcastRequest { payload, duration_secs });
                    Ok(Action::IssueStart { payload: issued, instance: ADVERTISING_INSTANCE })
                } else {
                    self.waiting.push(BroadcastRequest { payload, duration_secs });
                    proof {
                        assert(self.queue() =~= old(self).queue().push((payload@, duration_secs)));
                    }
                    Ok(Action::Wait)
                }
            },
        }
    }

    /// Records the outcome of the start command the driver just ran, `now`
    /// being the moment it completed. On success the slot advertises and the
    /// driver must hold until `now` plus the requested duration; on failure
    /// the lifecycle ends with nothing owed — in particular no stop — and the
    /// oldest waiting request, if any, begins at once.
    pub fn on_start_result(&mut self, now: u64, success: bool) -> (a: Action)
        requires
            old(self).wf(),
            old(self).slot_state() == SlotState::StartPending,
            now + old(self).current_job().unwrap().1 <= u64::MAX,
        ensures
            final(self).wf(),
            success ==> {
                &&& final(self).history() == old(self).history().push(
                    CommandRecord::StartSucceeded,
                )
                &&& final(self).slot_state() == SlotState::Advertising
                &&& final(self).current_job() == old(self).current_job()
                &&& final(self).queue() == old(self).queue()
                &&& final(self).hold_until() == now + old(self).current_job().unwrap().1
                &&& a matches Action::Hold { until } && until == now + old(
                    self,
                ).current_job().unwrap().1
            },
            !success ==> {
                &&& final(self).history() == old(self).history().push(CommandRecord::StartFailed)
                &&& hands_slot_on(*old(self), *final(self), a)
            },
    {
        if success {
            proof {
                lemma_push_keeps_bracketing(self.log@, CommandRecord::StartSucceeded);
            }
            self.log = Ghost(self.log@.push(CommandRecord::StartSucceeded));
            self.slot = SlotState::Advertising;
            let duration_secs = match &self.current {
                Some(job) => job.duration_secs,
                // dead: a pending start always has its job
                None => 0,
            };
            let until = now + duration_secs;
            self.hold_deadline = until;
            proof {
                assert(self.queue() == old(self).queue());
                assert forall|i: int| 0 <= i < self.queue().len() implies queued_ok(
                    #[trigger] self.queue()[i],
                ) by {
                    assert(queued_ok(old(self).queue()[i]));
                }
            }
            Action::Hold { until }
        } else {
            proof {
                lemma_push_keeps_bracketing(self.log@, CommandRecord::StartFailed);
            }
            self.log = Ghost(self.log@.push(CommandRecord::StartFailed));
            proof {
                assert(self.queue() == old(self).queue());
                assert forall|i: int| 0 <= i < self.queue().len() implies queued_ok(
                    #[trigger] self.queue()[i],
                ) by {
                    assert(queued_ok(old(self).queue()[i]));
                }
            }
            self.take_next()
        }
    }

    /// The hold is over — `now` has reached the deadline the driver was
    /// handed — so the stop command is owed, and nothing else may touch the
    /// slot first.
    pub fn on_hold_elapsed(&mut self, now: u64) -> (a: Action)
        requires
            old(self).wf(),
            old(self).slot_state() == SlotState::Advertising,
            now >= old(self).hold_until(),
        ensures
            final(self).wf(),
            final(self).slot_state() == SlotState::StopPending,
            final(self).history() == old(self).history(),
            final(self).current_job() == old(self).current_job(),
            final(self).queue() == old(self).queue(),
            a matches Action::IssueStop { instance } && instance == ADVERTISING_INSTANCE,
    {
        self.slot = SlotState::StopPending;
        proof {
            assert(self.queue() == old(self).queue());
            assert forall|i: int| 0 <= i < self.queue().len() implies queued_ok(
                #[trigger] self.queue()[i],
            ) by {
                assert(queued_ok(old(self).queue()[i]));
            }
        }
        Action::IssueStop { instance: ADVERTISING_INSTANCE }
    }

    /// Records the outcome of the stop command. Whatever the stop reported,
    /// the slot returns to service — a failed stop is observed, never allowed
    /// to wedge the slot — and the oldest waiting request, if any, begins at
    /// once.
    pub fn on_stop_result(&mut self, success: bool) -> (a: Action)
        requires
            old(self).wf(),
            old(self).slot_state() == SlotState::StopPending,
        ensures
            final(self).wf(),
            final(self).history() == old(self).history().push(CommandRecord::Stopped),
            hands_slot_on(*old(self), *final(self), a),
            final(self).slot_state() != SlotState::Advertising && final(self).slot_state()
                != SlotState::StopPending,
    {
        let _ = success;
        proof {
            lemma_push_keeps_bracketing(self.log@, CommandRecord::Stopped);
        }
        self.log = Ghost(self.log@.push(CommandRecord::Stopped));
        proof {
            assert(self.queue() == old(self).queue());
            assert forall|i: int| 0 <= i < self.queue().len() implies queued_ok(
                #[trigger] self.queue()[i],
            ) by {
                assert(queued_ok(old(self).queue()[i]));
            }
        }
        self.take_next()
    }

    /// Where the slot stands, for an observer.
    pub fn state(&self) -> (s: SlotState)
        ensures
            s == self.slot_state(),
    {
        self.slot
    }

    /// How many accepted requests wait for the slot.
    pub fn queued_len(&self) -> (n: usize)
        ensures
            n == self.queue().len(),
    {
        self.waiting.len()
    }

    /// The moment until which the current advertisement is to be held; only
    /// meaningful while the slot is advertising.
    pub fn deadline(&self) -> (t: u64)
        ensures
            t == self.hold_until(),
    {
        self.hold_deadline
    }

    /// Hands the freed slot on: to the oldest waiting request, or to no one.
    fn take_next(&mut self) -> (a: Action)
        requires
            well_bracketed(old(self).history()),
            !ends_open(old(self).history()),
            forall|i: int|
                0 <= i < old(self).queue().len() ==> queued_ok(#[trigger] old(self).queue()[i]),
        ensures
            final(self).wf(),
            final(self).history() == old(self).history(),
            hands_slot_on(*old(self), *final(self), a),
    {
        if self.waiting.is_empty() {
            self.slot = SlotState::Idle;
            self.current = None;
            proof {
                assert(self.queue() =~= old(self).queue());
            }
            Action::Wait
        } else {
            let job = self.waiting.remove(0);
            let issued = job.payload.clone();
            proof {
                assert(issued@ =~= job.payload@);
            }
            self.slot = SlotState::StartPending;
            self.current = Some(job);
            proof {
                assert(self.queue() =~= old(self).queue().skip(1));
                assert(queued_ok(old(self).queue()[0]));
                assert forall|i: int| 0 <= i < self.queue().len() implies queued_ok(
                    #[trigger] self.queue()[i],
                ) by {
                    assert(self.queue()[i] == old(self).queue()[i + 1]);
                    assert(queued_ok(old(self).queue()[i + 1]));
                }
            }
            Action::IssueStart { payload: issued, instance: ADVERTISING_INSTANCE }
        }
    }
}

} // verus!
