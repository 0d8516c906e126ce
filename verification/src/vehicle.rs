//! The vehicle's controller: up to four axes, each with the servo it drives.

use vstd::prelude::*;
use crate::codec::{build_control_message, decoded_text, encoded, parse_control_message};
use crate::message::{
    response_to,
    ClientType,
    ControlMessage,
    ControlMessageData,
    Id,
    IdentificationMessageData,
    MessageView,
    NumberView,
};
use crate::routing::Frame;
use crate::servo::{
    Axis,
    Servo,
    ServoPin,
    ServoView,
    Timing,
    DEFAULT_SERVO_PERIOD,
    DEFAULT_SERVO_PULSE_MAX,
    DEFAULT_SERVO_PULSE_MIN,
    DEFAULT_SERVO_PULSE_NEUTRAL,
};

verus! {

/// The most axes a controller can have: ailerons, elevator, rudder, throttle.
pub const MAX_AXES: usize = 4;

/// The position of the throttle among the axes.
pub const THROTTLE: usize = 3;

/// One step for whoever drives the outputs. The servos are numbered in axis
/// order: ailerons, elevator, rudder, throttle.
#[derive(Clone, Copy, Debug, PartialEq, Eq, Structural)]
pub enum SinkCommand {
    /// Give the output of this servo pulses of this many microseconds.
    SetPulseWidth { servo: usize, micros: u64 },
    /// Release the output of this servo.
    Disable { servo: usize },
}

/// The timing of the servo on axis `index`. The throttle never goes below
/// idle: its lower end is its neutral width.
pub open spec fn timing_of(index: int) -> Timing {
    Timing {
        period: DEFAULT_SERVO_PERIOD,
        pulse_min: if index == THROTTLE {
            DEFAULT_SERVO_PULSE_NEUTRAL
        } else {
            DEFAULT_SERVO_PULSE_MIN
        },
        pulse_neutral: DEFAULT_SERVO_PULSE_NEUTRAL,
        pulse_max: DEFAULT_SERVO_PULSE_MAX,
    }
}

/// The output of the servo on axis `index`: the two hardware channels first,
/// then the software-timed outputs.
pub open spec fn pin_of(index: int) -> ServoPin {
    if index == 0 {
        ServoPin::Pwm0
    } else if index == 1 {
        ServoPin::Pwm1
    } else if index == 2 {
        ServoPin::Soft1
    } else {
        ServoPin::Soft2
    }
}

/// The servo on axis `index` as it is right after construction.
pub open spec fn initial_servo(index: int) -> ServoView {
    ServoView {
        timing: timing_of(index),
        pin: pin_of(index),
        last_pulse: DEFAULT_SERVO_PULSE_NEUTRAL,
        enabled: true,
    }
}

/// What a `VehicleController` is: the current position of each axis, the
/// servo of each axis, and whether the controller is still driving them.
pub struct ControllerView {
    pub axes: Seq<Axis>,
    pub servos: Seq<ServoView>,
    pub active: bool,
}

impl ControllerView {
    /// What every controller satisfies: one servo per axis and at most four
    /// of them, every position within -1 and 1, the servos driven exactly
    /// as long as the controller is active, and every released servo last
    /// told its neutral width.
    pub open spec fn wf(self) -> bool {
        &&& self.axes.len() == self.servos.len()
        &&& self.axes.len() <= MAX_AXES
        &&& forall|i: int| 0 <= i < self.axes.len() ==> (#[trigger] self.axes[i]).clamped() == self.axes[i]
        &&& forall|i: int| 0 <= i < self.servos.len() ==> (#[trigger] self.servos[i]).enabled == self.active
        &&& forall|i: int|
            0 <= i < self.servos.len() && !self.active ==> (#[trigger] self.servos[i]).last_pulse
                == self.servos[i].timing.pulse_neutral
    }

    /// The controller after the positions `amounts` were applied, one per
    /// axis: each position is clamped and kept, and each servo has been given
    /// the pulse width for it.
    pub open spec fn driven(self, amounts: Seq<Axis>) -> ControllerView {
        ControllerView {
            axes: Seq::new(self.axes.len(), |i: int| amounts[i].clamped()),
            servos: Seq::new(
                self.servos.len(),
                |i: int|
                    ServoView {
                        last_pulse: self.servos[i].timing.pulse(amounts[i]),
                        ..self.servos[i]
                    },
            ),
            active: self.active,
        }
    }

    /// The steps that apply `amounts`: one new pulse per servo, in axis order.
    pub open spec fn drive_commands(self, amounts: Seq<Axis>) -> Seq<SinkCommand> {
        Seq::new(
            self.servos.len(),
            |i: int|
                SinkCommand::SetPulseWidth {
                    servo: i as usize,
                    micros: self.servos[i].timing.pulse(amounts[i]),
                },
        )
    }

    /// The controller after shutdown: every axis at zero, every servo last
    /// told its neutral width and then released.
    pub open spec fn shut_down(self) -> ControllerView {
        ControllerView {
            axes: Seq::new(self.axes.len(), |i: int| Axis(0)),
            servos: Seq::new(
                self.servos.len(),
                |i: int|
                    ServoView {
                        last_pulse: self.servos[i].timing.pulse_neutral,
                        enabled: false,
                        ..self.servos[i]
                    },
            ),
            active: false,
        }
    }

    /// The steps that tell every servo its neutral width, in axis order.
    pub open spec fn neutral_commands(self) -> Seq<SinkCommand> {
        Seq::new(
            self.servos.len(),
            |k: int|
                SinkCommand::SetPulseWidth {
                    servo: k as usize,
                    micros: self.servos[k].timing.pulse_neutral,
                },
        )
    }

    /// The steps that release every servo, in axis order.
    pub open spec fn release_commands(self) -> Seq<SinkCommand> {
        Seq::new(self.servos.len(), |k: int| SinkCommand::Disable { servo: k as usize })
    }

    /// The steps of a shutdown. While the controller is active, every servo
    /// is first told its neutral width and then every servo is released. A
    /// controller that was shut down before has no servo left to move: its
    /// outputs are released once more, and no pulse is asked for.
    pub open spec fn shutdown_commands(self) -> Seq<SinkCommand> {
        if self.active {
            self.neutral_commands() + self.release_commands()
        } else {
            self.release_commands()
        }
    }
}

/// The positions that a control frame carries, one per number.
pub open spec fn amounts_of(numbers: Seq<NumberView>) -> Seq<Axis> {
    numbers.map_values(|number: NumberView| Axis(number.bits))
}

/// The controller of a vehicle.
pub struct VehicleController {
    axes: Vec<Axis>,
    servos: Vec<Servo>,
    active: bool,
}

impl View for VehicleController {
    type V = ControllerView;

    closed spec fn view(&self) -> ControllerView {
        ControllerView {
            axes: self.axes@,
            servos: self.servos@.map_values(|servo: Servo| servo@),
            active: self.active,
        }
    }
}

impl VehicleController {
    #[verifier::type_invariant]
    spec fn inv(self) -> bool {
        self@.wf()
    }

    /// A controller of `axis_count` axes, every axis at zero and every servo
    /// driven to its neutral width. There is none for more than four axes.
    pub fn new(axis_count: usize) -> (controller: Option<VehicleController>)
        ensures
            controller is Some == (axis_count <= MAX_AXES),
            controller matches Some(controller) ==> controller@ == (ControllerView {
                axes: Seq::new(axis_count as nat, |i: int| Axis(0)),
                servos: Seq::new(axis_count as nat, |i: int| initial_servo(i)),
                active: true,
            }),
    {
        if axis_count > MAX_AXES {
            return None;
        }
        let mut axes: Vec<Axis> = Vec::new();
        let mut servos: Vec<Servo> = Vec::new();
        let mut i: usize = 0;
        while i < axis_count
            invariant
                i <= axis_count <= MAX_AXES,
                axes@ == Seq::new(i as nat, |k: int| Axis(0)),
                servos@.len() == i,
                forall|k: int| 0 <= k < i ==> (#[trigger] servos@[k])@ == initial_servo(k),
            decreases axis_count - i,
        {
            let pin = if i == 0 {
                ServoPin::Pwm0
            } else if i == 1 {
                ServoPin::Pwm1
            } else if i == 2 {
                ServoPin::Soft1
            } else {
                ServoPin::Soft2
            };
            let pulse_min = if i == THROTTLE {
                DEFAULT_SERVO_PULSE_NEUTRAL
            } else {
                DEFAULT_SERVO_PULSE_MIN
            };
            match Servo::new(
                DEFAULT_SERVO_PERIOD,
                pulse_min,
                DEFAULT_SERVO_PULSE_NEUTRAL,
                DEFAULT_SERVO_PULSE_MAX,
                pin,
            ) {
                Some(servo) => {
                    axes.push(Axis::zero());
                    servos.push(servo);
                },
                None => {
                    return None;
                },
            }
            i += 1;
            assert(axes@ =~= Seq::new(i as nat, |k: int| Axis(0)));
        }
        assert(servos@.map_values(|servo: Servo| servo@) =~= Seq::new(
            axis_count as nat,
            |k: int| initial_servo(k),
        ));
        let controller = VehicleController { axes, servos, active: true };
        Some(controller)
    }

    /// The number of axes.
    pub fn axis_count(&self) -> (count: usize)
        ensures
            count == self@.axes.len(),
            self@.wf(),
    {
        proof {
            use_type_invariant(self);
        }
        self.axes.len()
    }

    /// The current position of axis `index`.
    pub fn axis(&self, index: usize) -> (axis: Axis)
        requires
            index < self@.axes.len(),
        ensures
            axis == self@.axes[index as int],
    {
        self.axes[index]
    }

    /// The servo of axis `index`.
    pub fn servo(&self, index: usize) -> (servo: Servo)
        requires
            index < self@.servos.len(),
        ensures
            servo@ == self@.servos[index as int],
    {
        proof {
            use_type_invariant(self);
        }
        self.servos[index]
    }

    /// Whether the controller still drives its servos.
    pub fn is_active(&self) -> (active: bool)
        ensures
            active == self@.active,
    {
        self.active
    }

    /// Applies a control frame: one position per axis, in the order ailerons,
    /// elevator, rudder, throttle.
    ///
    /// A frame with another number of positions is refused with `None` and
    /// changes nothing. After shutdown a frame changes nothing either, and
    /// there is nothing to do for it.
    pub fn update_from_control_message_data(&mut self, data: &ControlMessageData) -> (commands:
        Option<Vec<SinkCommand>>)
        ensures
            final(self)@.wf(),
            commands is Some == (data@.len() == old(self)@.axes.len()),
            commands is None ==> final(self)@ == old(self)@,
            commands matches Some(commands) ==> if old(self)@.active {
                &&& final(self)@ == old(self)@.driven(amounts_of(data@))
                &&& commands@ == old(self)@.drive_commands(amounts_of(data@))
            } else {
                &&& final(self)@ == old(self)@
                &&& commands@ == Seq::<SinkCommand>::empty()
            },
    {
        proof {
            use_type_invariant(&*self);
        }
        let count = self.axes.len();
        if data.axes.len() != count {
            return None;
        }
        let mut commands: Vec<SinkCommand> = Vec::new();
        if !self.active {
            return Some(commands);
        }
        let ghost amounts = amounts_of(data@);
        let ghost before = self@;
        let mut axes: Vec<Axis> = Vec::new();
        let mut servos: Vec<Servo> = Vec::new();
        let mut i: usize = 0;
        while i < count
            invariant
                i <= count,
                count == self.axes@.len(),
                count == data.axes@.len(),
                before == self@,
                before.wf(),
                before.active,
                amounts == amounts_of(data@),
                axes@ == Seq::new(i as nat, |k: int| amounts[k].clamped()),
                servos@.len() == i,
                forall|k: int|
                    0 <= k < i ==> (#[trigger] servos@[k])@ == (ServoView {
                        last_pulse: before.servos[k].timing.pulse(amounts[k]),
                        ..before.servos[k]
                    }),
                commands@ == Seq::new(
                    i as nat,
                    |k: int|
                        SinkCommand::SetPulseWidth {
                            servo: k as usize,
                            micros: before.servos[k].timing.pulse(amounts[k]),
                        },
                ),
            decreases count - i,
        {
            let amount = Axis::from_bits(data.axes[i].to_bits());
            assert(amount == amounts[i as int]);
            let mut servo = self.servos[i];
            assert(servo@ == before.servos[i as int]);
            match servo.rotate(amount) {
                Some(micros) => {
                    commands.push(SinkCommand::SetPulseWidth { servo: i, micros });
                },
                None => {},
            }
            axes.push(amount.clamp());
            servos.push(servo);
            i += 1;
            assert(axes@ =~= Seq::new(i as nat, |k: int| amounts[k].clamped()));
            assert(commands@ =~= Seq::new(
                i as nat,
                |k: int|
                    SinkCommand::SetPulseWidth {
                        servo: k as usize,
                        micros: before.servos[k].timing.pulse(amounts[k]),
                    },
            ));
        }
        proof {
            assert forall|k: int| 0 <= k < count implies (#[trigger] axes@[k]).clamped()
                == axes@[k] by {
                lemma_clamped_twice(amounts[k]);
            }
            assert(axes@ =~= before.driven(amounts).axes);
            assert(servos@.map_values(|servo: Servo| servo@) =~= before.driven(amounts).servos);
            assert(commands@ =~= before.drive_commands(amounts));
        }
        *self = VehicleController { axes, servos, active: true };
        Some(commands)
    }

    /// Brings the vehicle to rest: every axis goes to zero, every servo is
    /// told its neutral width, and then every servo is released. The steps
    /// come back in that order. A second shutdown leaves the controller as
    /// it is and asks for no pulse: it only releases the outputs once more.
    pub fn shutdown(&mut self) -> (commands: Vec<SinkCommand>)
        ensures
            final(self)@.wf(),
            final(self)@ == old(self)@.shut_down(),
            commands@ == old(self)@.shutdown_commands(),
    {
        proof {
            use_type_invariant(&*self);
        }
        let count = self.servos.len();
        let ghost before = self@;
        let mut commands: Vec<SinkCommand> = Vec::new();
        let mut axes: Vec<Axis> = Vec::new();
        let mut servos: Vec<Servo> = Vec::new();
        let mut i: usize = 0;
        while i < count
            invariant
                i <= count,
                count == self.servos@.len(),
                before == self@,
                before.wf(),
                axes@ == Seq::new(i as nat, |k: int| Axis(0)),
                servos@.len() == i,
                forall|k: int|
                    0 <= k < i ==> (#[trigger] servos@[k])@ == (ServoView {
                        last_pulse: before.servos[k].timing.pulse_neutral,
                        enabled: false,
                        ..before.servos[k]
                    }),
                before.active ==> commands@ == before.neutral_commands().take(i as int),
                !before.active ==> commands@ == Seq::<SinkCommand>::empty(),
            decreases count - i,
        {
            let mut servo = self.servos[i];
            assert(servo@ == before.servos[i as int]);
            match servo.rotate(Axis::zero()) {
                Some(micros) => {
                    commands.push(SinkCommand::SetPulseWidth { servo: i, micros });
                },
                None => {},
            }
            servo.disable();
            axes.push(Axis::zero());
            servos.push(servo);
            i += 1;
            assert(axes@ =~= Seq::new(i as nat, |k: int| Axis(0)));
            assert(before.active ==> commands@ =~= before.neutral_commands().take(i as int));
        }
        let ghost pulses = commands@;
        assert(before.active ==> pulses =~= before.neutral_commands());
        let mut j: usize = 0;
        while j < count
            invariant
                j <= count,
                count == before.servos.len(),
                commands@ == pulses + before.release_commands().take(j as int),
            decreases count - j,
        {
            commands.push(SinkCommand::Disable { servo: j });
            j += 1;
            assert(commands@ =~= pulses + before.release_commands().take(j as int));
        }
        proof {
            assert(before.release_commands().take(count as int) =~= before.release_commands());
            assert(axes@ =~= before.shut_down().axes);
            assert(servos@.map_values(|servo: Servo| servo@) =~= before.shut_down().servos);
            assert(commands@ =~= before.shutdown_commands());
        }
        *self = VehicleController { axes, servos, active: false };
        commands
    }
}

/// Clamping a clamped position changes nothing.
pub proof fn lemma_clamped_twice(amount: Axis)
    ensures
        amount.clamped().clamped() == amount.clamped(),
{
}

/// Right after construction every servo was last told its neutral width.
pub proof fn lemma_neutral_at_construction(index: int)
    ensures
        initial_servo(index).last_pulse == initial_servo(index).timing.pulse_neutral,
        initial_servo(index).enabled,
        initial_servo(index).timing.valid(),
{
}

/// Right after shutdown every servo was last told its neutral width and is
/// released, whatever the controller had been doing.
pub proof fn lemma_neutral_at_shutdown(controller: ControllerView, index: int)
    requires
        0 <= index < controller.servos.len(),
    ensures
        controller.shut_down().servos[index].last_pulse
            == controller.servos[index].timing.pulse_neutral,
        !controller.shut_down().servos[index].enabled,
        controller.shut_down().servos[index].timing == controller.servos[index].timing,
{
}

/// Shutdown is idempotent: a second shutdown leaves the controller as the
/// first one left it. It asks for no pulse, only for the outputs to be
/// released once more.
pub proof fn lemma_shutdown_twice(controller: ControllerView)
    ensures
        controller.shut_down().shut_down() == controller.shut_down(),
        controller.shut_down().shutdown_commands() == controller.release_commands(),
        forall|k: int|
            0 <= k < controller.shut_down().shutdown_commands().len()
                ==> #[trigger] controller.shut_down().shutdown_commands()[k] is Disable,
{
    assert(controller.shut_down().shut_down().axes =~= controller.shut_down().axes);
    assert(controller.shut_down().shut_down().servos =~= controller.shut_down().servos);
    assert(controller.shut_down().shutdown_commands() =~= controller.release_commands());
}

/// The group of the vehicle, as text.
pub const VEHICLE_GROUP_ID: &'static str = "14ed4af8-5256-4e74-a5d6-545dfc0b004c";

/// The identifier of the vehicle, as text.
pub const VEHICLE_ID: &'static str = "e72029c7-ce0f-45c7-bc3a-3e01e5c53944";

/// The number of axes that the vehicle expects in a control frame.
pub const AXIS_COUNT: usize = 3;

/// What the vehicle does about one frame.
#[derive(Clone, Debug, PartialEq, Eq)]
pub enum VehicleAction {
    /// Nothing.
    Ignore,
    /// A control frame was taken: these steps go to the outputs, in order.
    Drive(Vec<SinkCommand>),
    /// A control frame with the wrong number of axes was refused.
    Refuse,
    /// This text goes back to the broker as a text frame.
    Reply(String),
}

/// The frame by which the vehicle `id` of group `group_id` announces itself.
pub fn identification(id: Id, group_id: Id) -> (text: String)
    ensures
        text@ == encoded(
            MessageView::Identification(
                IdentificationMessageData { id, group_id, client_type: ClientType::Vehicle },
            ),
        ),
{
    build_control_message(
        &ControlMessage::Identification(
            IdentificationMessageData { id, group_id, client_type: ClientType::Vehicle },
        ),
    )
}

/// Whether `action` is what the vehicle `id` owes the message `message` when
/// its controller is `before`, and `after` is the controller it is left with.
///
/// A control frame drives the servos, or is refused for its number of axes.
/// A latency probe is answered with the probe's own initiator and timestamp.
/// Every other message is ignored. Only a control frame that is taken changes
/// the controller.
pub open spec fn answers(
    before: ControllerView,
    id: Id,
    message: MessageView,
    action: VehicleAction,
    after: ControllerView,
) -> bool {
    match message {
        MessageView::Control(axes) => if axes.len() != before.axes.len() {
            action is Refuse && after == before
        } else if before.active {
            &&& action matches VehicleAction::Drive(commands)
            &&& commands@ == before.drive_commands(amounts_of(axes))
            &&& after == before.driven(amounts_of(axes))
        } else {
            &&& action matches VehicleAction::Drive(commands)
            &&& commands@ == Seq::<SinkCommand>::empty()
            &&& after == before
        },
        MessageView::LatencyRequest(request) => {
            &&& action matches VehicleAction::Reply(text)
            &&& text@ == encoded(MessageView::LatencyResponse(response_to(request, id)))
            &&& after == before
        },
        _ => action is Ignore && after == before,
    }
}

/// One step of the vehicle: takes a frame from the broker and says what to do
/// about it. A text frame that is no message is an error, with the cause in
/// words; it changes nothing. A frame that is not text is ignored.
pub fn handle_frame(controller: &mut VehicleController, id: Id, frame: &Frame) -> (result: Result<
    VehicleAction,
    String,
>)
    ensures
        final(controller)@.wf(),
        match frame.text() {
            None => result matches Ok(VehicleAction::Ignore) && final(controller)@ == old(
                controller,
            )@,
            Some(text) => match decoded_text(text) {
                Ok(message) => result matches Ok(action) && answers(
                    old(controller)@,
                    id,
                    message,
                    action,
                    final(controller)@,
                ),
                Err(_) => result is Err && final(controller)@ == old(controller)@,
            },
        },
{
    proof {
        use_type_invariant(&*controller);
    }
    let text = match frame {
        Frame::Text(text) => text,
        _ => {
            return Ok(VehicleAction::Ignore);
        },
    };
    match parse_control_message(text.as_str())? {
        ControlMessage::Control(data) => {
            match controller.update_from_control_message_data(&data) {
                Some(commands) => Ok(VehicleAction::Drive(commands)),
                None => Ok(VehicleAction::Refuse),
            }
        },
        ControlMessage::LatencyRequest(data) => {
            let response = ControlMessage::LatencyResponse(data.respond(id));
            Ok(VehicleAction::Reply(build_control_message(&response)))
        },
        _ => Ok(VehicleAction::Ignore),
    }
}

} // verus!
