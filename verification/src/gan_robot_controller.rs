//! The session with the robot: its two states, the steps that lead from one
//! to the other, and what a connected session can be asked to do.

use crate::dispatch::{
    encode_moves, encoded, fits_payload, lemma_encoded_fits, plan_dispatch, planned,
    remaining, remaining_moves, DispatchStep,
};
use crate::MAX_MOVES_PER_WRITE;
use crate::error::ControllerError;
use crate::face_rotation::{is_draw, rotations, FaceRotation, FaceRotationMap};
use vstd::prelude::*;

verus! {

/// The error of the `uuid` crate's parser.
#[verifier::external_type_specification]
#[verifier::external_body]
pub struct ExUuidError(uuid::Error);

/// The 128-bit value that `uuid::Uuid::parse_str` reads from a text, or
/// `None` where it refuses the text.
pub uninterp spec fn parsed_uuid(text: Seq<char>) -> Option<u128>;

/// Reads a UUID with `uuid::Uuid::parse_str` and gives its value as
/// `uuid::Uuid::as_u128` does. The parser takes the hyphenated, simple, URN
/// and braced forms, and its answer depends on the text alone.
#[verifier::external_body]
fn parse_uuid(text: &str) -> (parsed: Result<u128, uuid::Error>)
    ensures
        match parsed {
            Ok(id) => parsed_uuid(text@) == Some(id),
            Err(_) => parsed_uuid(text@) is None,
        },
{
    match uuid::Uuid::parse_str(text) {
        Ok(id) => Ok(id.as_u128()),
        Err(e) => Err(e),
    }
}

/// A state that a session can be in.
pub trait State {}

/// The state of a session that has not connected yet: it knows the name to
/// look for, the identifiers of the two characteristics, and how long to
/// look.
pub struct Uninitialized {
    name: String,
    move_characteristic: u128,
    status_characteristic: u128,
    scan_timeout_ms: Option<u64>,
}

/// What an unconnected session knows.
pub struct UninitializedView {
    /// The name that the robot advertises.
    pub name: Seq<char>,
    /// The identifier of the characteristic that moves are written to.
    pub move_characteristic: u128,
    /// The identifier of the characteristic that the status is read from.
    pub status_characteristic: u128,
    /// The time in milliseconds after which a scan is given up, if any.
    pub scan_timeout_ms: Option<u64>,
}

impl State for Uninitialized {}

impl View for Uninitialized {
    type V = UninitializedView;

    closed spec fn view(&self) -> UninitializedView {
        UninitializedView {
            name: self.name@,
            move_characteristic: self.move_characteristic,
            status_characteristic: self.status_characteristic,
            scan_timeout_ms: self.scan_timeout_ms,
        }
    }
}

/// The state of a session with a connected robot: it knows where, among the
/// characteristics that the robot offers, the two it uses are.
pub struct Connected {
    move_characteristic: usize,
    status_characteristic: usize,
    face_rotation_map: FaceRotationMap,
}

/// What a connected session knows.
pub struct ConnectedView {
    /// The place of the characteristic that moves are written to.
    pub move_characteristic: int,
    /// The place of the characteristic that the status is read from.
    pub status_characteristic: int,
}

impl State for Connected {}

impl View for Connected {
    type V = ConnectedView;

    closed spec fn view(&self) -> ConnectedView {
        ConnectedView {
            move_characteristic: self.move_characteristic as int,
            status_characteristic: self.status_characteristic as int,
        }
    }
}

/// A session with the robot, in the state `S`.
pub struct GanRobotController<S> where S: State {
    state: S,
}

impl<S> GanRobotController<S> where S: State {
    /// The state of the session.
    pub closed spec fn state(&self) -> S {
        self.state
    }
}

impl View for GanRobotController<Uninitialized> {
    type V = UninitializedView;

    open spec fn view(&self) -> UninitializedView {
        self.state()@
    }
}

impl View for GanRobotController<Connected> {
    type V = ConnectedView;

    open spec fn view(&self) -> ConnectedView {
        self.state()@
    }
}

impl Uninitialized {
    /// The name of the robot to look for.
    pub fn name(&self) -> (name: &str)
        ensures
            name@ == self@.name,
    {
        self.name.as_str()
    }

    /// The identifier of the characteristic that moves are written to.
    pub fn move_characteristic(&self) -> (id: u128)
        ensures
            id == self@.move_characteristic,
    {
        self.move_characteristic
    }

    /// The identifier of the characteristic that the status is read from.
    pub fn status_characteristic(&self) -> (id: u128)
        ensures
            id == self@.status_characteristic,
    {
        self.status_characteristic
    }

    /// The time in milliseconds after which the driver gives a scan up and
    /// reports that it has ended; `None` if it is to wait without end.
    pub fn scan_timeout_ms(&self) -> (ms: Option<u64>)
        ensures
            ms == self@.scan_timeout_ms,
    {
        self.scan_timeout_ms
    }
}

impl Connected {
    /// The place, among the characteristics that the robot offers, of the
    /// one that moves are written to.
    pub fn move_characteristic(&self) -> (at: usize)
        ensures
            at == self@.move_characteristic,
    {
        self.move_characteristic
    }

    /// The place, among the characteristics that the robot offers, of the
    /// one that the status is read from.
    pub fn status_characteristic(&self) -> (at: usize)
        ensures
            at == self@.status_characteristic,
    {
        self.status_characteristic
    }
}

impl<S> std::ops::Deref for GanRobotController<S> where S: State {
    type Target = S;

    /// The state of the session.
    fn deref(&self) -> (state: &S)
        ensures
            *state == self.state(),
    {
        &self.state
    }
}

/// What a session is made of, once both identifiers have been read: the
/// session, which will scan without a time limit, or the refusal if one of
/// the identifiers is no UUID.
pub open spec fn configured(
    name: Seq<char>,
    move_characteristic: Option<u128>,
    status_characteristic: Option<u128>,
) -> Result<UninitializedView, ControllerError> {
    match (move_characteristic, status_characteristic) {
        (Some(move_characteristic), Some(status_characteristic)) => Ok(
            UninitializedView {
                name,
                move_characteristic,
                status_characteristic,
                scan_timeout_ms: None,
            },
        ),
        _ => Err(ControllerError::InvalidUuid),
    }
}

impl GanRobotController<Uninitialized> {
    /// Makes an unconnected session from a name and the two identifiers as
    /// they were read, each `None` if its text was no UUID.
    pub fn from_parsed(
        name: &str,
        move_characteristic: Option<u128>,
        status_characteristic: Option<u128>,
    ) -> (made: Result<Self, ControllerError>)
        ensures
            match made {
                Ok(controller) => configured(name@, move_characteristic, status_characteristic)
                    == Ok::<UninitializedView, ControllerError>(controller@),
                Err(e) => configured(name@, move_characteristic, status_characteristic) == Err::<
                    UninitializedView,
                    ControllerError,
                >(e),
            },
    {
        match (move_characteristic, status_characteristic) {
            (Some(move_characteristic), Some(status_characteristic)) => Ok(
                GanRobotController {
                    state: Uninitialized {
                        name: name.to_owned(),
                        move_characteristic,
                        status_characteristic,
                        scan_timeout_ms: None,
                    },
                },
            ),
            _ => Err(ControllerError::InvalidUuid),
        }
    }

    /// Makes an unconnected session that will look for the robot called
    /// `name` and use the characteristics with the given UUIDs.
    pub fn try_new(name: &str, move_characteristic: &str, status_characteristic: &str) -> (made:
        Result<Self, ControllerError>)
        ensures
            match made {
                Ok(controller) => configured(
                    name@,
                    parsed_uuid(move_characteristic@),
                    parsed_uuid(status_characteristic@),
                ) == Ok::<UninitializedView, ControllerError>(controller@),
                Err(e) => configured(
                    name@,
                    parsed_uuid(move_characteristic@),
                    parsed_uuid(status_characteristic@),
                ) == Err::<UninitializedView, ControllerError>(e),
            },
    {
        let move_characteristic = match parse_uuid(move_characteristic) {
            Ok(id) => Some(id),
            Err(_) => None,
        };
        let status_characteristic = match parse_uuid(status_characteristic) {
            Ok(id) => Some(id),
            Err(_) => None,
        };
        Self::from_parsed(name, move_characteristic, status_characteristic)
    }

    /// The same session with a time limit on its scan: the driver reports
    /// the scan as ended once it has waited `ms` milliseconds for the robot
    /// to show up.
    pub fn with_scan_timeout(self, ms: u64) -> (limited: Self)
        ensures
            limited@ == (UninitializedView { scan_timeout_ms: Some(ms), ..self@ }),
    {
        GanRobotController {
            state: Uninitialized {
                name: self.state.name,
                move_characteristic: self.state.move_characteristic,
                status_characteristic: self.state.status_characteristic,
                scan_timeout_ms: Some(ms),
            },
        }
    }
}

/// What the driver has to do next to connect to the robot.
#[derive(Debug, PartialEq, Eq, Hash, Clone, Copy, Structural)]
pub enum ConnectStep {
    /// Ask for the machine's Bluetooth adapters and take the first.
    AcquireAdapter,
    /// Subscribe to the adapter's events and start an unfiltered scan.
    StartScan,
    /// Wait for the adapter's next event.
    AwaitDevice,
    /// Fetch the advertised name of the device that was just discovered.
    ReadName,
    /// Stop the scan.
    StopScan,
    /// Open a connection to the device whose name matched.
    OpenConnection,
    /// Discover the device's services and hand the identifiers of their
    /// characteristics to `try_connect`.
    Resolve,
    /// Give up with this error.
    Fail(ControllerError),
}

/// What the driver reports back after carrying out a step.
#[derive(Debug, PartialEq, Eq)]
pub enum ConnectEvent {
    /// The machine has this many adapters.
    Adapters(usize),
    /// The step is done and has nothing to tell.
    Completed,
    /// The adapter has discovered a device.
    DeviceDiscovered,
    /// The adapter has sent an event that is no discovery.
    OtherEvent,
    /// The adapter will send no more events, or the driver has waited as
    /// long as it was told to.
    ScanEnded,
    /// The discovered device advertises this name, or none.
    LocalName(Option<String>),
    /// The Bluetooth stack reported a failure.
    Failed,
}

/// The name that a device goes by: the one it advertises, or the empty name
/// if it advertises none.
pub open spec fn advertised(local_name: Option<String>) -> Seq<char> {
    match local_name {
        Some(name) => name@,
        None => Seq::empty(),
    }
}

impl ConnectStep {
    /// Whether the step machine has nothing more to decide.
    pub open spec fn is_final(self) -> bool {
        self is Resolve || self is Fail
    }

    /// The step that follows once the driver reports `event`, in a search
    /// for the device called `target`. Without an adapter the attempt fails
    /// at once. Devices are looked at one by one as they are discovered,
    /// and passed over unless the name matches exactly; the first match
    /// stops the scan. The attempt fails if the events end first, or if the
    /// Bluetooth stack fails. An event that does not answer the step
    /// changes nothing.
    pub open spec fn after(self, target: Seq<char>, event: ConnectEvent) -> ConnectStep {
        match (self, event) {
            (ConnectStep::Resolve, _) => self,
            (ConnectStep::Fail(_), _) => self,
            (_, ConnectEvent::Failed) => ConnectStep::Fail(ControllerError::Transport),
            (ConnectStep::AcquireAdapter, ConnectEvent::Adapters(count)) => if count == 0 {
                ConnectStep::Fail(ControllerError::NoAdapter)
            } else {
                ConnectStep::StartScan
            },
            (ConnectStep::StartScan, ConnectEvent::Completed) => ConnectStep::AwaitDevice,
            (ConnectStep::AwaitDevice, ConnectEvent::DeviceDiscovered) => ConnectStep::ReadName,
            (ConnectStep::AwaitDevice, ConnectEvent::ScanEnded) => ConnectStep::Fail(
                ControllerError::DeviceNotFound,
            ),
            (ConnectStep::ReadName, ConnectEvent::LocalName(local_name)) => if advertised(
                local_name,
            ) == target {
                ConnectStep::StopScan
            } else {
                ConnectStep::AwaitDevice
            },
            (ConnectStep::StopScan, ConnectEvent::Completed) => ConnectStep::OpenConnection,
            (ConnectStep::OpenConnection, ConnectEvent::Completed) => ConnectStep::Resolve,
            _ => self,
        }
    }
}

/// Whether `at` is the first place in `list` that holds `id`.
pub open spec fn is_first_position(list: Seq<u128>, id: u128, at: int) -> bool {
    &&& 0 <= at < list.len()
    &&& list[at] == id
    &&& forall|j: int| 0 <= j < at ==> list[j] != id
}

/// The first place among the offered characteristics that holds the
/// identifier `id`, if any does.
pub fn find_characteristic(characteristics: &[u128], id: u128) -> (found: Option<usize>)
    ensures
        match found {
            Some(at) => is_first_position(characteristics@, id, at as int),
            None => !characteristics@.contains(id),
        },
{
    let mut i: usize = 0;
    while i < characteristics.len()
        invariant
            i <= characteristics@.len(),
            forall|j: int| 0 <= j < i ==> characteristics@[j] != id,
        decreases characteristics@.len() - i,
    {
        if characteristics[i] == id {
            return Some(i);
        }
        i = i + 1;
    }
    None
}

impl GanRobotController<Uninitialized> {
    /// The first step of a connection attempt.
    pub fn first_step(&self) -> (step: ConnectStep)
        ensures
            step == ConnectStep::AcquireAdapter,
    {
        ConnectStep::AcquireAdapter
    }

    /// Whether a device that advertises `local_name` is the robot this
    /// session looks for: its name is the wanted one, letter for letter. A
    /// device without a name goes by the empty name.
    pub fn is_target(&self, local_name: &Option<String>) -> (matched: bool)
        ensures
            matched == (advertised(*local_name) == self@.name),
    {
        match local_name {
            Some(name) => *name == self.state.name,
            None => {
                assert(self@.name.len() == 0 <==> self@.name =~= Seq::empty());
                self.state.name.as_str().is_empty()
            },
        }
    }

    /// The step that follows `step` once the driver reports `event`.
    pub fn next_step(&self, step: ConnectStep, event: ConnectEvent) -> (next: ConnectStep)
        ensures
            next == step.after(self@.name, event),
    {
        match step {
            ConnectStep::Resolve => step,
            ConnectStep::Fail(_) => step,
            _ => match event {
                ConnectEvent::Failed => ConnectStep::Fail(ControllerError::Transport),
                ConnectEvent::Adapters(count) => match step {
                    ConnectStep::AcquireAdapter => if count == 0 {
                        ConnectStep::Fail(ControllerError::NoAdapter)
                    } else {
                        ConnectStep::StartScan
                    },
                    _ => step,
                },
                ConnectEvent::Completed => match step {
                    ConnectStep::StartScan => ConnectStep::AwaitDevice,
                    ConnectStep::StopScan => ConnectStep::OpenConnection,
                    ConnectStep::OpenConnection => ConnectStep::Resolve,
                    _ => step,
                },
                ConnectEvent::DeviceDiscovered => match step {
                    ConnectStep::AwaitDevice => ConnectStep::ReadName,
                    _ => step,
                },
                ConnectEvent::OtherEvent => step,
                ConnectEvent::ScanEnded => match step {
                    ConnectStep::AwaitDevice => ConnectStep::Fail(ControllerError::DeviceNotFound),
                    _ => step,
                },
                ConnectEvent::LocalName(local_name) => match step {
                    ConnectStep::ReadName => if self.is_target(&local_name) {
                        ConnectStep::StopScan
                    } else {
                        ConnectStep::AwaitDevice
                    },
                    _ => step,
                },
            },
        }
    }

    /// Turns the session into a connected one, given the identifiers of the
    /// characteristics that the robot offers, in the order of discovery.
    /// Both characteristics of the session must be among them: with either
    /// missing there is no session at all.
    pub fn try_connect(self, characteristics: &[u128]) -> (connected: Result<
        GanRobotController<Connected>,
        ControllerError,
    >)
        ensures
            match connected {
                Ok(controller) => {
                    &&& is_first_position(
                        characteristics@,
                        self@.move_characteristic,
                        controller@.move_characteristic,
                    )
                    &&& is_first_position(
                        characteristics@,
                        self@.status_characteristic,
                        controller@.status_characteristic,
                    )
                },
                Err(e) => {
                    &&& e == ControllerError::CharacteristicNotFound
                    &&& !characteristics@.contains(self@.move_characteristic)
                        || !characteristics@.contains(self@.status_characteristic)
                },
            },
    {
        let move_characteristic = match find_characteristic(
            characteristics,
            self.state.move_characteristic,
        ) {
            Some(at) => at,
            None => {
                return Err(ControllerError::CharacteristicNotFound);
            },
        };
        let status_characteristic = match find_characteristic(
            characteristics,
            self.state.status_characteristic,
        ) {
            Some(at) => at,
            None => {
                return Err(ControllerError::CharacteristicNotFound);
            },
        };
        Ok(
            GanRobotController {
                state: Connected {
                    move_characteristic,
                    status_characteristic,
                    face_rotation_map: FaceRotationMap::new(),
                },
            },
        )
    }
}

impl GanRobotController<Connected> {
    /// Plans the dispatch of `moves`. `Invalid` entries are dropped without
    /// complaint; if more than 36 moves are left, nothing is dispatched.
    pub fn do_moves(&self, moves: &[FaceRotation]) -> (plan: Result<DispatchStep, ControllerError>)
        ensures
            match plan {
                Ok(step) => encoded(moves@).len() <= MAX_MOVES_PER_WRITE && planned(
                    encoded(moves@),
                    step,
                ),
                Err(e) => encoded(moves@).len() > MAX_MOVES_PER_WRITE && e
                    == ControllerError::TooManyMoves,
            },
    {
        let codes = encode_moves(moves);
        proof {
            lemma_encoded_fits(moves@);
        }
        self.do_moves_raw(codes.as_slice())
    }

    /// Plans the dispatch of moves given by their device codes, which are
    /// packed as they are. With more than 36 codes nothing is dispatched;
    /// with fewer, each byte of the payload must be able to hold its two
    /// codes, as it is with codes of four bits.
    pub fn do_moves_raw(&self, codes: &[u8]) -> (plan: Result<DispatchStep, ControllerError>)
        requires
            codes@.len() <= MAX_MOVES_PER_WRITE ==> fits_payload(codes@),
        ensures
            match plan {
                Ok(step) => codes@.len() <= MAX_MOVES_PER_WRITE && planned(codes@, step),
                Err(e) => codes@.len() > MAX_MOVES_PER_WRITE && e == ControllerError::TooManyMoves,
            },
    {
        plan_dispatch(codes)
    }

    /// Draws `num_moves` rotations at random, or all twenty if that is
    /// fewer, and plans their dispatch. The rotations drawn are returned
    /// beside the plan. Twenty moves always fit one write, so there is
    /// always a plan.
    pub fn scramble(&self, num_moves: usize) -> (plan: Result<
        (Vec<FaceRotation>, DispatchStep),
        ControllerError,
    >)
        ensures
            match plan {
                Ok((moves, step)) => {
                    &&& is_draw(moves@, rotations(), num_moves as nat)
                    &&& moves@.no_duplicates()
                    &&& forall|i: int| 0 <= i < moves@.len() ==> (#[trigger] moves@[i]).is_valid()
                    &&& num_moves >= 20 ==> forall|m: FaceRotation|
                        m.is_valid() ==> moves@.contains(m)
                    &&& planned(encoded(moves@), step)
                },
                Err(_) => false,
            },
    {
        let moves = self.state.face_rotation_map.get_random_moves(num_moves);
        proof {
            lemma_encoded_fits(moves@);
        }
        match self.do_moves(moves.as_slice()) {
            Ok(step) => Ok((moves, step)),
            Err(e) => Err(e),
        }
    }

    /// The number of moves that the robot still has to make, as a read of
    /// its status characteristic reports it: the first byte, or none if the
    /// read came back empty.
    pub fn get_remaining_moves(&self, status: &[u8]) -> (left: u8)
        ensures
            left == remaining(status@),
    {
        remaining_moves(status)
    }

    /// Ends the session. The value is used up: a session that was
    /// disconnected cannot be asked for anything more, nor be connected
    /// again.
    pub fn disconnect(self) {
    }
}

impl ConnectStep {
    /// The step reached from this one when the driver reports `events` one
    /// after another, in a search for the device called `target`.
    pub open spec fn after_all(self, target: Seq<char>, events: Seq<ConnectEvent>) -> ConnectStep
        decreases events.len(),
    {
        if events.len() == 0 {
            self
        } else {
            self.after_all(target, events.drop_last()).after(target, events.last())
        }
    }
}

/// What a driver reports while devices that advertise `names` are
/// discovered one after another: for each the discovery, then its name.
pub open spec fn scan_events(names: Seq<Option<String>>) -> Seq<ConnectEvent>
    decreases names.len(),
{
    if names.len() == 0 {
        Seq::empty()
    } else {
        scan_events(names.drop_last()) + seq![
            ConnectEvent::DeviceDiscovered,
            ConnectEvent::LocalName(names.last()),
        ]
    }
}

/// Reporting one more event leads one step further.
pub proof fn lemma_connect_after_all_push(
    step: ConnectStep,
    target: Seq<char>,
    events: Seq<ConnectEvent>,
    event: ConnectEvent,
)
    ensures
        step.after_all(target, events.push(event)) == step.after_all(target, events).after(
            target,
            event,
        ),
{
    assert(events.push(event).drop_last() =~= events);
}

/// One more discovery leads from the step after the discoveries so far to
/// the step that the new device's name calls for.
proof fn lemma_scan_once_more(target: Seq<char>, names: Seq<Option<String>>)
    requires
        names.len() > 0,
    ensures
        ConnectStep::AwaitDevice.after_all(target, scan_events(names))
            == ConnectStep::AwaitDevice.after_all(target, scan_events(names.drop_last())).after(
            target,
            ConnectEvent::DeviceDiscovered,
        ).after(target, ConnectEvent::LocalName(names.last())),
{
    let before = scan_events(names.drop_last());
    let discovered = before.push(ConnectEvent::DeviceDiscovered);
    assert(scan_events(names) =~= discovered.push(ConnectEvent::LocalName(names.last())));
    lemma_connect_after_all_push(
        ConnectStep::AwaitDevice,
        target,
        before,
        ConnectEvent::DeviceDiscovered,
    );
    lemma_connect_after_all_push(
        ConnectStep::AwaitDevice,
        target,
        discovered,
        ConnectEvent::LocalName(names.last()),
    );
}

/// Devices of other names are passed over: after any number of them the
/// scan still waits for the next device.
pub proof fn lemma_scan_passes_over_other_names(target: Seq<char>, names: Seq<Option<String>>)
    requires
        forall|i: int| 0 <= i < names.len() ==> advertised(names[i]) != target,
    ensures
        ConnectStep::AwaitDevice.after_all(target, scan_events(names)) == ConnectStep::AwaitDevice,
    decreases names.len(),
{
    if names.len() > 0 {
        lemma_scan_passes_over_other_names(target, names.drop_last());
        lemma_scan_once_more(target, names);
    }
}

/// The scan stops at the first device whose name is the wanted one.
pub proof fn lemma_scan_stops_at_first_match(target: Seq<char>, names: Seq<Option<String>>)
    requires
        names.len() > 0,
        forall|i: int| 0 <= i < names.len() - 1 ==> advertised(names[i]) != target,
        advertised(names.last()) == target,
    ensures
        ConnectStep::AwaitDevice.after_all(target, scan_events(names)) == ConnectStep::StopScan,
{
    lemma_scan_passes_over_other_names(target, names.drop_last());
    lemma_scan_once_more(target, names);
}

/// If the events end before a device of the wanted name was seen, the
/// attempt fails because the device was not found.
pub proof fn lemma_scan_without_match_fails(target: Seq<char>, names: Seq<Option<String>>)
    requires
        forall|i: int| 0 <= i < names.len() ==> advertised(names[i]) != target,
    ensures
        ConnectStep::AwaitDevice.after_all(
            target,
            scan_events(names).push(ConnectEvent::ScanEnded),
        ) == ConnectStep::Fail(ControllerError::DeviceNotFound),
{
    lemma_scan_passes_over_other_names(target, names);
    lemma_connect_after_all_push(
        ConnectStep::AwaitDevice,
        target,
        scan_events(names),
        ConnectEvent::ScanEnded,
    );
}

/// A step that is final stays as it is, whatever is reported, and a failure
/// ends any attempt that is still under way.
pub proof fn lemma_connect_final_and_failure(step: ConnectStep, target: Seq<char>, event: ConnectEvent)
    ensures
        step.is_final() ==> step.after(target, event) == step,
        !step.is_final() ==> step.after(target, ConnectEvent::Failed) == ConnectStep::Fail(
            ControllerError::Transport,
        ),
{
}

} // verus!
