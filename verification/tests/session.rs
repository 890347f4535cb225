use rusty_panel::config::{ButtonConfig, Config, ConfigError, ConfigErrorKind, DeviceConfig};
use rusty_panel::device::{color_error_message, StreamStep};
use rusty_panel::{open_first_device, PanelDevice};

fn panel() -> PanelDevice {
    let (_, panel) = open_first_device(&vec![(0x0483, 0xa3c4)]).unwrap();
    panel
}

fn button(id: usize, click: Option<&str>, rotate: Option<&str>, range: Option<&str>) -> ButtonConfig {
    ButtonConfig {
        id,
        on_click: click.map(String::from),
        on_rotate: rotate.map(String::from),
        range: range.map(String::from),
    }
}

fn config(color: &str, buttons: Vec<ButtonConfig>) -> Config {
    Config { device: DeviceConfig { color: color.to_string() }, buttons }
}

#[test]
fn first_matching_device_is_picked() {
    let devices = vec![(0x046d, 0xc52b), (0x0483, 0xa3c4), (0x0483, 0xa3c4)];
    let (at, panel) = open_first_device(&devices).unwrap();
    assert_eq!(at, 1);
    assert_eq!(panel.handler().controls(), 4);
    assert_eq!(panel.handler().click(0), None);
    assert_eq!(panel.color_frame((10, 20, 30)), [0x06, 0x04, 0x05, 10, 20, 30]);
}

#[test]
fn no_matching_device_is_found() {
    assert!(open_first_device(&Vec::new()).is_none());
    assert!(open_first_device(&vec![(0x0483, 0xa3c5), (0x0484, 0xa3c4), (0xa3c4, 0x0483)]).is_none());
}

#[test]
fn configuration_binds_the_commands() {
    let mut panel = panel();
    let applied = panel.apply_config(config(
        "#00FF0080",
        vec![
            button(0, Some("mute"), None, None),
            button(1, None, Some("vol {amount}"), Some("5-10")),
            button(2, Some("play"), Some("seek {amount}"), None),
            button(9, Some("never"), Some("never"), Some("3")),
        ],
    ));
    assert_eq!(applied.color, Some((0, 128, 0)));
    assert_eq!(applied.result, Ok(()));
    let handler = panel.handler();
    assert_eq!(handler.click(0), Some("mute".to_string()));
    assert_eq!(handler.rotate(0, 1), None);
    assert_eq!(handler.click(1), None);
    assert_eq!(handler.rotate(1, 128), Some("vol 7".to_string()));
    assert_eq!(handler.click(2), Some("play".to_string()));
    assert_eq!(handler.rotate(2, 128), Some("seek 50".to_string()));
    assert_eq!(handler.click(3), None);
}

#[test]
fn rejected_color_binds_nothing() {
    let mut panel = panel();
    let applied = panel.apply_config(config("#FFF", vec![button(0, Some("mute"), None, None)]));
    assert_eq!(applied.color, None);
    assert_eq!(
        applied.result,
        Err(ConfigError { kind: ConfigErrorKind::ColorFormat, value: "#FFF".to_string() })
    );
    assert_eq!(panel.handler().click(0), None);
}

#[test]
fn first_rejected_range_ends_the_registration() {
    let mut panel = panel();
    let applied = panel.apply_config(config(
        "#FFFFFF",
        vec![
            button(0, Some("mute"), None, None),
            button(1, Some("skipped"), None, Some("10-5")),
            button(2, Some("play"), None, Some("x")),
        ],
    ));
    assert_eq!(applied.color, Some((255, 255, 255)));
    assert_eq!(
        applied.result,
        Err(ConfigError { kind: ConfigErrorKind::RangeInverted, value: "10-5".to_string() })
    );
    assert_eq!(panel.handler().click(0), Some("mute".to_string()));
    assert_eq!(panel.handler().click(1), None);
    assert_eq!(panel.handler().click(2), None);
}

#[test]
fn stream_runs_bound_commands_and_stops_on_failure() {
    let mut panel = panel();
    let applied = panel.apply_config(config(
        "#FFFFFF",
        vec![button(0, Some("mute"), None, None), button(1, None, Some("vol {amount}"), None)],
    ));
    assert_eq!(applied.result, Ok(()));
    let mut buffer = [0u8; 64];
    buffer[..3].copy_from_slice(&[0x02, 0x00, 0x01]);
    assert_eq!(panel.stream_step(&buffer, Ok(64)), StreamStep::Run("mute".to_string()));
    assert_eq!(panel.stream_step(&buffer, Ok(2)), StreamStep::Idle);
    assert_eq!(panel.stream_step(&buffer, Ok(0)), StreamStep::Idle);
    buffer[..3].copy_from_slice(&[0x02, 0x00, 0x00]);
    assert_eq!(panel.stream_step(&buffer, Ok(64)), StreamStep::Idle);
    buffer[..3].copy_from_slice(&[0x01, 0x01, 0x80]);
    assert_eq!(panel.stream_step(&buffer, Ok(64)), StreamStep::Run("vol 50".to_string()));
    assert_eq!(
        panel.stream_step(&buffer, Err("unplugged".to_string())),
        StreamStep::Stop("error reading from device: unplugged".to_string())
    );
}

#[test]
fn color_failure_names_its_cause() {
    assert_eq!(color_error_message("timeout"), "failed to set color: timeout");
}
