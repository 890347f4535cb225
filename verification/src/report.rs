//! The panel's wire formats: the input reports that it sends and the
//! colour frame that it accepts.

use vstd::prelude::*;

verus! {

/// The first byte of a report about a rotation.
pub const REPORT_ROTATE: u8 = 0x01;

/// The first byte of a report about a button.
pub const REPORT_BUTTON: u8 = 0x02;

/// The third byte of a button report when the button went down.
pub const BUTTON_PRESSED: u8 = 0x01;

/// The third byte of a button report when the button came up.
pub const BUTTON_RELEASED: u8 = 0x00;

/// The number of bytes of a report that carry meaning.
pub const REPORT_HEADER_LEN: usize = 3;

/// The operation byte of the frame that sets the whole backlight.
pub const SET_FULL_COLOR: u8 = 0x04;

/// What a report says happened on the panel.
#[derive(Clone, Copy, Debug, PartialEq, Eq, Structural)]
pub enum PanelEvent {
    /// The control was turned; `amount` is the raw byte of the report.
    Rotate { control: u8, amount: u8 },
    /// The control was pressed.
    Press { control: u8 },
    /// The control was let go.
    Release { control: u8 },
    /// The report is too short or of no known kind.
    Ignored,
}

/// The event that a buffer holds of which the device filled the first
/// `filled` bytes.
pub open spec fn event_of(buffer: Seq<u8>, filled: nat) -> PanelEvent {
    if filled < 3 || buffer.len() < 3 {
        PanelEvent::Ignored
    } else if buffer[0] == 0x01 {
        PanelEvent::Rotate { control: buffer[1], amount: buffer[2] }
    } else if buffer[0] == 0x02 && buffer[2] == 0x01 {
        PanelEvent::Press { control: buffer[1] }
    } else if buffer[0] == 0x02 && buffer[2] == 0x00 {
        PanelEvent::Release { control: buffer[1] }
    } else {
        PanelEvent::Ignored
    }
}

/// Decodes the report in `buffer`, of which the device filled the first
/// `filled` bytes.
pub fn decode_report(buffer: &[u8], filled: usize) -> (event: PanelEvent)
    ensures
        event == event_of(buffer@, filled as nat),
{
    if filled < REPORT_HEADER_LEN || buffer.len() < REPORT_HEADER_LEN {
        return PanelEvent::Ignored;
    }
    let kind: u8 = buffer[0];
    let control: u8 = buffer[1];
    let payload: u8 = buffer[2];
    if kind == REPORT_ROTATE {
        PanelEvent::Rotate { control, amount: payload }
    } else if kind == REPORT_BUTTON && payload == BUTTON_PRESSED {
        PanelEvent::Press { control }
    } else if kind == REPORT_BUTTON && payload == BUTTON_RELEASED {
        PanelEvent::Release { control }
    } else {
        PanelEvent::Ignored
    }
}

/// The six bytes that set the backlight to `color`.
pub open spec fn color_frame_of(device_id: u8, color_set_id: u8, color: (u8, u8, u8)) -> Seq<u8> {
    seq![device_id, 0x04u8, color_set_id, color.0, color.1, color.2]
}

/// Builds the frame that sets the backlight to `color`.
pub fn color_frame(device_id: u8, color_set_id: u8, color: (u8, u8, u8)) -> (frame: [u8; 6])
    ensures
        frame@ == color_frame_of(device_id, color_set_id, color),
{
    let frame: [u8; 6] = [device_id, SET_FULL_COLOR, color_set_id, color.0, color.1, color.2];
    assert(frame@ =~= color_frame_of(device_id, color_set_id, color));
    frame
}

} // verus!
