//! The panel session: which device is a panel, what it is told at start-up
//! and what each read from it leads to.

use crate::config::{
    color_of, span_offset_of, ButtonConfig, ButtonSpec, Config, ConfigError, ConfigErrorKind,
    ConfigSpec,
};
use crate::handler::{Bindings, PanelHandler};
use crate::report::{color_frame, color_frame_of, event_of};
use vstd::prelude::*;

verus! {

/// The USB vendor identifier of the panel.
pub const VENDOR_ID: u16 = 0x0483;

/// The USB product identifier of the panel.
pub const PRODUCT_ID: u16 = 0xa3c4;

/// The first byte of every frame sent to the panel.
pub const DEVICE_ID: u8 = 0x06;

/// The byte that addresses the panel's backlight.
pub const COLOR_SET_ID: u8 = 0x05;

/// The number of controls on the panel.
pub const CONTROL_COUNT: usize = 4;

/// Whether a device with these identifiers is a panel.
pub open spec fn is_panel(ids: (u16, u16)) -> bool {
    ids.0 == 0x0483 && ids.1 == 0xa3c4
}

/// A panel session as plain values.
pub struct PanelState {
    pub device_id: u8,
    pub color_set_id: u8,
    pub bindings: Bindings,
}

impl PanelState {
    /// The session of a panel that was just found: nothing is bound yet.
    pub open spec fn fresh() -> PanelState {
        PanelState { device_id: 0x06, color_set_id: 0x05, bindings: Bindings::unbound(4) }
    }
}

/// A session with one panel: the two bytes that address it and the
/// bindings of its controls.
#[derive(Debug)]
pub struct PanelDevice {
    device_id: u8,
    color_set_id: u8,
    handler: PanelHandler,
}

impl View for PanelDevice {
    type V = PanelState;

    closed spec fn view(&self) -> PanelState {
        PanelState {
            device_id: self.device_id,
            color_set_id: self.color_set_id,
            bindings: self.handler@,
        }
    }
}

/// Picks the panel among the attached devices, each given by its vendor
/// and product identifier: the position of the first one that is a panel,
/// with a fresh session for it.
pub fn open_first_device(devices: &Vec<(u16, u16)>) -> (found: Option<(usize, PanelDevice)>)
    ensures
        match found {
            Some((at, panel)) => at < devices@.len() && is_panel(devices@[at as int]) && (forall|
                j: int,
            |
                0 <= j < at ==> !is_panel(#[trigger] devices@[j])) && panel@ == PanelState::fresh(),
            None => forall|j: int| 0 <= j < devices@.len() ==> !is_panel(#[trigger] devices@[j]),
        },
{
    let mut i: usize = 0;
    while i < devices.len()
        invariant
            i <= devices@.len(),
            forall|j: int| 0 <= j < i ==> !is_panel(#[trigger] devices@[j]),
        decreases devices.len() - i,
    {
        let ids: (u16, u16) = devices[i];
        if ids.0 == VENDOR_ID && ids.1 == PRODUCT_ID {
            let panel = PanelDevice {
                device_id: DEVICE_ID,
                color_set_id: COLOR_SET_ID,
                handler: PanelHandler::new(CONTROL_COUNT),
            };
            return Some((i, panel));
        }
        i += 1;
    }
    None
}

/// The bindings after one control's configuration was registered.
pub open spec fn bind_button(bindings: Bindings, button: ButtonSpec, span: u16, offset: u16) -> Bindings {
    let clicked = match button.on_click {
        Some(template) => bindings.with_click(button.id as int, template),
        None => bindings,
    };
    match button.on_rotate {
        Some(template) => clicked.with_rotate(button.id as int, template, span, offset),
        None => clicked,
    }
}

/// The bindings after the controls were registered in order, up to the
/// first one whose range is rejected, and that rejection: its kind and the
/// range as configured.
pub open spec fn bind_buttons(bindings: Bindings, buttons: Seq<ButtonSpec>) -> (
    Bindings,
    Option<(ConfigErrorKind, Seq<char>)>,
)
    decreases buttons.len(),
{
    if buttons.len() == 0 {
        (bindings, None)
    } else {
        match span_offset_of(buttons[0].range) {
            Ok((span, offset)) => bind_buttons(
                bind_button(bindings, buttons[0], span, offset),
                buttons.skip(1),
            ),
            Err(kind) => (bindings, Some((kind, buttons[0].range.unwrap()))),
        }
    }
}

/// What applying a configuration comes to: the new bindings, the colour to
/// show, and the rejection if a value was rejected. A rejected colour
/// leaves everything as it was.
pub open spec fn configured(bindings: Bindings, config: ConfigSpec) -> (
    Bindings,
    Option<(u8, u8, u8)>,
    Option<(ConfigErrorKind, Seq<char>)>,
) {
    match color_of(config.color) {
        Ok(rgb) => {
            let bound = bind_buttons(bindings, config.buttons);
            (bound.0, Some(rgb), bound.1)
        },
        Err(kind) => (bindings, None, Some((kind, config.color))),
    }
}

/// The outcome of applying a configuration.
#[derive(Debug)]
pub struct Applied {
    /// The colour to write to the panel; `None` where the configured
    /// colour was rejected.
    pub color: Option<(u8, u8, u8)>,
    /// Whether every value was accepted.
    pub result: Result<(), ConfigError>,
}

/// The rejection in a result, as plain values.
pub open spec fn rejection_of(result: Result<(), ConfigError>) -> Option<
    (ConfigErrorKind, Seq<char>),
> {
    match result {
        Ok(_) => None,
        Err(e) => Some((e.kind, e.value@)),
    }
}

/// What a read from the panel leads to.
#[derive(Debug, PartialEq, Eq)]
pub enum StreamStep {
    /// Nothing to do but read again.
    Idle,
    /// Run this command line, then read again.
    Run(String),
    /// Stop reading and report this message.
    Stop(String),
}

/// A step as plain values.
pub enum StepSpec {
    Idle,
    Run(Seq<char>),
    Stop(Seq<char>),
}

impl View for StreamStep {
    type V = StepSpec;

    open spec fn view(&self) -> StepSpec {
        match self {
            StreamStep::Idle => StepSpec::Idle,
            StreamStep::Run(line) => StepSpec::Run(line@),
            StreamStep::Stop(message) => StepSpec::Stop(message@),
        }
    }
}

/// The step that follows a read: a failed read, given by its cause, stops
/// the stream; a report leads to the command bound to its event, if any.
pub open spec fn step_after(bindings: Bindings, buffer: Seq<u8>, read: Result<usize, Seq<char>>) -> StepSpec {
    match read {
        Ok(filled) => match bindings.command_for(event_of(buffer, filled as nat)) {
            Some(line) => StepSpec::Run(line),
            None => StepSpec::Idle,
        },
        Err(cause) => StepSpec::Stop("error reading from device: "@ + cause),
    }
}

/// The outcome of a read, as plain values.
pub open spec fn read_of(read: Result<usize, String>) -> Result<usize, Seq<char>> {
    match read {
        Ok(filled) => Ok(filled),
        Err(cause) => Err(cause@),
    }
}

/// The message for a colour frame that the panel did not take.
pub fn color_error_message(cause: &str) -> (message: String)
    ensures
        message@ == "failed to set color: "@ + cause@,
{
    let mut message: String = String::from_str("failed to set color: ");
    message.append(cause);
    message
}

impl PanelDevice {
    /// The bindings of this panel's controls.
    pub fn handler(&self) -> (handler: &PanelHandler)
        ensures
            handler@ == self@.bindings,
    {
        &self.handler
    }

    /// The frame that sets this panel's backlight to `color`.
    pub fn color_frame(&self, color: (u8, u8, u8)) -> (frame: [u8; 6])
        ensures
            frame@ == color_frame_of(self@.device_id, self@.color_set_id, color),
    {
        color_frame(self.device_id, self.color_set_id, color)
    }

    /// Applies a configuration: reads the colour, then registers the
    /// commands of each control in the configured order. The first
    /// rejected value ends it; what was registered until then stays.
    pub fn apply_config(&mut self, config: Config) -> (applied: Applied)
        ensures
            final(self)@.device_id == old(self)@.device_id,
            final(self)@.color_set_id == old(self)@.color_set_id,
            final(self)@.bindings == configured(old(self)@.bindings, config@).0,
            applied.color == configured(old(self)@.bindings, config@).1,
            rejection_of(applied.result) == configured(old(self)@.bindings, config@).2,
    {
        let color: (u8, u8, u8) = match config.device.parse_color() {
            Ok(color) => color,
            Err(e) => {
                return Applied { color: None, result: Err(e) };
            },
        };
        let ghost specs = config@.buttons;
        let ghost goal = bind_buttons(old(self)@.bindings, specs);
        let mut i: usize = 0;
        assert(specs.skip(0) =~= specs);
        while i < config.buttons.len()
            invariant
                i <= config.buttons@.len(),
                specs == config@.buttons,
                goal == bind_buttons(old(self)@.bindings, specs),
                color_of(config@.color) == Ok::<(u8, u8, u8), ConfigErrorKind>(color),
                self.device_id == old(self).device_id,
                self.color_set_id == old(self).color_set_id,
                bind_buttons(self.handler@, specs.skip(i as int)) == goal,
            decreases config.buttons.len() - i,
        {
            let button: &ButtonConfig = &config.buttons[i];
            assert(specs.skip(i as int)[0] == button@);
            assert(specs.skip(i as int).skip(1) =~= specs.skip(i + 1));
            let (span, offset) = match button.parse_range_offset() {
                Ok(pair) => pair,
                Err(e) => {
                    return Applied { color: Some(color), result: Err(e) };
                },
            };
            if let Some(command) = &button.on_click {
                self.handler.register_click_command(button.id, command.clone());
            }
            if let Some(command) = &button.on_rotate {
                self.handler.register_rotate_command(button.id, command.clone(), span, offset);
            }
            i += 1;
        }
        Applied { color: Some(color), result: Ok(()) }
    }

    /// Decides what follows a read from the panel. `buffer` is what was
    /// read into; `read` is the number of bytes that the device filled, or
    /// the cause of the failure.
    pub fn stream_step(&self, buffer: &[u8], read: Result<usize, String>) -> (step: StreamStep)
        ensures
            step@ == step_after(self@.bindings, buffer@, read_of(read)),
            read matches Ok(filled) && filled < 3 ==> step == StreamStep::Idle,
    {
        match read {
            Ok(filled) => match self.handler.handle_report(buffer, filled) {
                Some(line) => StreamStep::Run(line),
                None => StreamStep::Idle,
            },
            Err(cause) => {
                let mut message: String = String::from_str("error reading from device: ");
                message.append(cause.as_str());
                StreamStep::Stop(message)
            },
        }
    }
}

} // verus!
