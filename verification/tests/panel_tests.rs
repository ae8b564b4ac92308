use metro_display::backend::{Backend, BackendError, Recorder};
use metro_display::canvas::BufferId;
use metro_display::color::Color;
use metro_display::config::{ConfigError, HardwareMapping, PanelConfig, MAX_PWM_BITS};
use metro_display::panel::{Panel, PanelError, SwapError};

fn sign_config() -> PanelConfig {
    PanelConfig {
        hardware_mapping: HardwareMapping::AdafruitHat,
        rows: 32,
        chain_length: 4,
        pwm_bits: 3,
        pwm_lsb_nanoseconds: 300,
        gpio_slowdown: 2,
    }
}

fn red() -> Color {
    Color { red: 255, green: 0, blue: 0 }
}

fn green() -> Color {
    Color { red: 0, green: 255, blue: 0 }
}

fn build_error(config: PanelConfig) -> PanelError {
    Panel::new(config, Recorder::new()).unwrap_err()
}

#[test]
fn panel_of_four_modules_of_32_rows_is_128_by_32() {
    let mut panel = Panel::new(sign_config(), Recorder::new()).unwrap();
    let canvas = panel.offscreen_canvas().unwrap();
    assert_eq!(canvas.width(), 128);
    assert_eq!(canvas.height(), 32);
    assert_eq!(panel.displayed().width(), 128);
    assert_eq!(panel.displayed().height(), 32);
}

#[test]
fn panel_canvas_size_follows_config() {
    for (rows, chain_length) in [(1, 1), (8, 1), (16, 3), (64, 2), (7, 5)] {
        let config = PanelConfig { rows, chain_length, ..sign_config() };
        let mut panel = Panel::new(config, Recorder::new()).unwrap();
        let canvas = panel.offscreen_canvas().unwrap();
        assert_eq!(canvas.width(), chain_length * rows);
        assert_eq!(canvas.height(), rows);
        assert_eq!(panel.config(), config);
    }
}

#[test]
fn panel_new_sets_the_display_up_with_the_config() {
    let panel = Panel::new(sign_config(), Recorder::new()).unwrap();
    assert_eq!(panel.backend().config(), Some(sign_config()));
    assert_eq!(panel.backend().frame_count(), 0);
}

#[test]
fn panel_new_rejects_rows() {
    for rows in [0, -1, i32::MIN] {
        let config = PanelConfig { rows, ..sign_config() };
        assert_eq!(build_error(config), PanelError::Config(ConfigError::InvalidRows));
        assert_eq!(config.validate(), Err(ConfigError::InvalidRows));
    }
}

#[test]
fn panel_new_rejects_chain_length() {
    for chain_length in [0, -1, i32::MIN] {
        let config = PanelConfig { chain_length, ..sign_config() };
        assert_eq!(build_error(config), PanelError::Config(ConfigError::InvalidChainLength));
    }
}

#[test]
fn panel_new_rejects_pwm_bits_out_of_range() {
    for pwm_bits in [0, -1, 12, 255, i32::MAX, i32::MIN] {
        let config = PanelConfig { pwm_bits, ..sign_config() };
        assert_eq!(build_error(config), PanelError::Config(ConfigError::InvalidPwmBits));
    }
    for pwm_bits in [1, 3, 11, MAX_PWM_BITS] {
        let config = PanelConfig { pwm_bits, ..sign_config() };
        assert!(Panel::new(config, Recorder::new()).is_ok());
    }
}

#[test]
fn panel_new_rejects_pwm_lsb_nanoseconds() {
    for pwm_lsb_nanoseconds in [0, -300] {
        let config = PanelConfig { pwm_lsb_nanoseconds, ..sign_config() };
        assert_eq!(
            build_error(config),
            PanelError::Config(ConfigError::InvalidPwmLsbNanoseconds)
        );
    }
    let config = PanelConfig { pwm_lsb_nanoseconds: 1, ..sign_config() };
    assert!(Panel::new(config, Recorder::new()).is_ok());
}

#[test]
fn panel_new_rejects_negative_gpio_slowdown() {
    let config = PanelConfig { gpio_slowdown: -1, ..sign_config() };
    assert_eq!(build_error(config), PanelError::Config(ConfigError::InvalidGpioSlowdown));
    let config = PanelConfig { gpio_slowdown: 0, ..sign_config() };
    assert!(Panel::new(config, Recorder::new()).is_ok());
}

#[test]
fn panel_new_rejects_chains_that_are_too_large() {
    let config = PanelConfig { rows: 4096, chain_length: 2, ..sign_config() };
    assert_eq!(build_error(config), PanelError::Config(ConfigError::TooLarge));
    let config = PanelConfig { rows: i32::MAX, chain_length: i32::MAX, ..sign_config() };
    assert_eq!(build_error(config), PanelError::Config(ConfigError::TooLarge));
    let config = PanelConfig { rows: 1, chain_length: 16_777_217, ..sign_config() };
    assert_eq!(build_error(config), PanelError::Config(ConfigError::TooLarge));
    let config = PanelConfig { rows: 4097, chain_length: 1, ..sign_config() };
    assert_eq!(config.validate(), Err(ConfigError::TooLarge));
    let config = PanelConfig { rows: 4096, chain_length: 1, ..sign_config() };
    assert_eq!(config.validate(), Ok(()));
    let config = PanelConfig { rows: 1, chain_length: 16_777_216, ..sign_config() };
    assert_eq!(config.validate(), Ok(()));
}

#[test]
fn panel_new_reports_first_fault() {
    let config = PanelConfig {
        hardware_mapping: HardwareMapping::Regular,
        rows: 0,
        chain_length: 0,
        pwm_bits: 0,
        pwm_lsb_nanoseconds: 0,
        gpio_slowdown: -1,
    };
    assert_eq!(config.validate(), Err(ConfigError::InvalidRows));
    let config = PanelConfig { rows: 8, ..config };
    assert_eq!(config.validate(), Err(ConfigError::InvalidChainLength));
    let config = PanelConfig { chain_length: 1, ..config };
    assert_eq!(config.validate(), Err(ConfigError::InvalidPwmBits));
    let config = PanelConfig { pwm_bits: 11, ..config };
    assert_eq!(config.validate(), Err(ConfigError::InvalidPwmLsbNanoseconds));
    let config = PanelConfig { pwm_lsb_nanoseconds: 130, ..config };
    assert_eq!(config.validate(), Err(ConfigError::InvalidGpioSlowdown));
    let config = PanelConfig { gpio_slowdown: 0, ..config };
    assert_eq!(config.validate(), Ok(()));
}

#[test]
fn panel_new_invalid_config_does_not_touch_the_display() {
    let mut recorder = Recorder::new();
    recorder.refuse_initialize();
    let config = PanelConfig { rows: 0, ..sign_config() };
    assert_eq!(
        Panel::new(config, recorder).unwrap_err(),
        PanelError::Config(ConfigError::InvalidRows)
    );
}

#[test]
fn panel_new_reports_display_failure() {
    let mut recorder = Recorder::new();
    recorder.refuse_initialize();
    assert_eq!(
        Panel::new(sign_config(), recorder).unwrap_err(),
        PanelError::Backend(BackendError::Initialize)
    );
}

#[test]
fn panel_assemble_follows_the_display_answer() {
    let made = Panel::assemble(sign_config(), Recorder::new(), Ok(()));
    assert!(made.is_ok());
    let made = Panel::assemble(sign_config(), Recorder::new(), Err(BackendError::Initialize));
    assert_eq!(made.unwrap_err(), PanelError::Backend(BackendError::Initialize));
    let config = PanelConfig { pwm_bits: 12, ..sign_config() };
    let made = Panel::assemble(config, Recorder::new(), Err(BackendError::Initialize));
    assert_eq!(made.unwrap_err(), PanelError::Config(ConfigError::InvalidPwmBits));
    let made = Panel::assemble(config, Recorder::new(), Ok(()));
    assert_eq!(made.unwrap_err(), PanelError::Config(ConfigError::InvalidPwmBits));
}

#[test]
fn panel_hands_out_buffer_a_first_and_only_once() {
    let mut panel = Panel::new(sign_config(), Recorder::new()).unwrap();
    assert_eq!(panel.displayed().id(), BufferId::B);
    let canvas = panel.offscreen_canvas().unwrap();
    assert_eq!(canvas.id(), BufferId::A);
    assert!(panel.offscreen_canvas().is_none());
    assert!(panel.offscreen_canvas().is_none());
    assert_eq!(panel.displayed().id(), BufferId::B);
}

#[test]
fn swap_returns_the_other_buffer() {
    let mut panel = Panel::new(sign_config(), Recorder::new()).unwrap();
    let mut a = panel.offscreen_canvas().unwrap();
    a.set_pixel(1, 2, red());
    let b = panel.swap(a).unwrap();
    assert_eq!(b.id(), BufferId::B);
    assert_eq!(panel.displayed().id(), BufferId::A);
    assert_eq!(panel.displayed().pixel(1, 2), Some(red()));
    assert_eq!(b.pixel(1, 2), Some(Color::black()));
    assert!(panel.offscreen_canvas().is_none());
}

#[test]
fn swap_round_trip_returns_to_the_first_pair() {
    let mut panel = Panel::new(sign_config(), Recorder::new()).unwrap();
    let mut a = panel.offscreen_canvas().unwrap();
    a.set_pixel(0, 0, red());
    let mut b = panel.swap(a).unwrap();
    assert_eq!((panel.displayed().id(), b.id()), (BufferId::A, BufferId::B));
    b.set_pixel(5, 5, green());
    let a = panel.swap(b).unwrap();
    assert_eq!((panel.displayed().id(), a.id()), (BufferId::B, BufferId::A));
    assert_eq!(a.pixel(0, 0), Some(red()));
    assert_eq!(a.pixel(5, 5), Some(Color::black()));
    assert_eq!(panel.displayed().pixel(5, 5), Some(green()));
    assert_eq!(panel.displayed().pixel(0, 0), Some(Color::black()));
}

#[test]
fn swap_presents_the_drawn_frame() {
    let mut panel = Panel::new(sign_config(), Recorder::new()).unwrap();
    let mut a = panel.offscreen_canvas().unwrap();
    a.set_pixel(3, 4, red());
    let mut b = panel.swap(a).unwrap();
    b.set_pixel(7, 8, green());
    let _a = panel.swap(b).unwrap();
    let recorder = panel.backend();
    assert_eq!(recorder.frame_count(), 2);
    let first = recorder.frame(0).unwrap();
    assert_eq!(first.id(), BufferId::A);
    assert_eq!(first.pixel(3, 4), Some(red()));
    assert_eq!(first.pixel(7, 8), Some(Color::black()));
    let second = recorder.frame(1).unwrap();
    assert_eq!(second.id(), BufferId::B);
    assert_eq!(second.pixel(7, 8), Some(green()));
    assert_eq!(second.pixel(3, 4), Some(Color::black()));
    assert!(recorder.frame(2).is_none());
}

#[test]
fn swap_refuses_a_canvas_that_was_not_handed_out() {
    let mut panel = Panel::new(sign_config(), Recorder::new()).unwrap();
    let mut other = Panel::new(sign_config(), Recorder::new()).unwrap();
    let foreign = other.offscreen_canvas().unwrap();
    assert_eq!(panel.swap(foreign).unwrap_err(), SwapError::NotLent);
    assert_eq!(panel.backend().frame_count(), 0);
    assert_eq!(panel.displayed().id(), BufferId::B);
    let own = panel.offscreen_canvas().unwrap();
    assert_eq!(own.id(), BufferId::A);
    assert!(panel.swap(own).is_ok());
}

#[test]
fn swap_refuses_a_canvas_of_the_displayed_buffer() {
    let mut panel = Panel::new(sign_config(), Recorder::new()).unwrap();
    let mut other = Panel::new(sign_config(), Recorder::new()).unwrap();
    let a = other.offscreen_canvas().unwrap();
    let foreign_b = other.swap(a).unwrap();
    let _held = panel.offscreen_canvas().unwrap();
    assert_eq!(panel.swap(foreign_b).unwrap_err(), SwapError::NotLent);
    assert_eq!(panel.backend().frame_count(), 0);
}

#[test]
fn swap_refuses_a_canvas_of_another_size() {
    let mut panel = Panel::new(sign_config(), Recorder::new()).unwrap();
    let small = PanelConfig { rows: 16, ..sign_config() };
    let mut other = Panel::new(small, Recorder::new()).unwrap();
    let foreign = other.offscreen_canvas().unwrap();
    let _held = panel.offscreen_canvas().unwrap();
    assert_eq!(panel.swap(foreign).unwrap_err(), SwapError::NotLent);
    assert_eq!(panel.displayed().id(), BufferId::B);
}

#[test]
fn swap_keeps_the_frame_when_the_display_fails() {
    let mut recorder = Recorder::new();
    recorder.refuse_next(2);
    let mut panel = Panel::new(sign_config(), recorder).unwrap();
    let mut a = panel.offscreen_canvas().unwrap();
    a.set_pixel(9, 9, red());
    assert_eq!(panel.swap(a).unwrap_err(), SwapError::Backend(BackendError::Present));
    assert_eq!(panel.displayed().id(), BufferId::B);
    let a = panel.offscreen_canvas().unwrap();
    assert_eq!(a.id(), BufferId::A);
    assert_eq!(a.pixel(9, 9), Some(red()));
    assert_eq!(panel.swap(a).unwrap_err(), SwapError::Backend(BackendError::Present));
    let a = panel.offscreen_canvas().unwrap();
    let b = panel.swap(a).unwrap();
    assert_eq!(b.id(), BufferId::B);
    assert_eq!(panel.displayed().pixel(9, 9), Some(red()));
    assert_eq!(panel.backend().frame_count(), 1);
}

#[test]
fn settle_follows_the_display_answer() {
    let mut panel = Panel::new(sign_config(), Recorder::new()).unwrap();
    let a = panel.offscreen_canvas().unwrap();
    assert_eq!(
        panel.settle(a, Err(BackendError::Present)).unwrap_err(),
        SwapError::Backend(BackendError::Present)
    );
    assert_eq!(panel.displayed().id(), BufferId::B);
    let a = panel.offscreen_canvas().unwrap();
    let b = panel.settle(a, Ok(())).unwrap();
    assert_eq!(b.id(), BufferId::B);
    assert_eq!(panel.displayed().id(), BufferId::A);
    let mut other = Panel::new(sign_config(), Recorder::new()).unwrap();
    let foreign = other.offscreen_canvas().unwrap();
    assert_eq!(panel.settle(foreign, Ok(())).unwrap_err(), SwapError::NotLent);
    assert_eq!(panel.displayed().id(), BufferId::A);
    assert_eq!(panel.backend().frame_count(), 0);
}

#[test]
fn recorder_refuses_what_it_was_told_to() {
    let mut panel = Panel::new(sign_config(), Recorder::new()).unwrap();
    let canvas = panel.offscreen_canvas().unwrap();
    let mut recorder = Recorder::new();
    assert_eq!(recorder.config(), None);
    recorder.refuse_next(1);
    assert_eq!(recorder.present(&canvas), Err(BackendError::Present));
    assert_eq!(recorder.frame_count(), 0);
    assert_eq!(recorder.present(&canvas), Ok(()));
    assert_eq!(recorder.present(&canvas), Ok(()));
    assert_eq!(recorder.frame_count(), 2);
    assert_eq!(recorder.initialize(&sign_config()), Ok(()));
    assert_eq!(recorder.config(), Some(sign_config()));
    recorder.refuse_initialize();
    assert_eq!(recorder.initialize(&sign_config()), Err(BackendError::Initialize));
}

#[test]
fn recorder_keeps_frames_as_they_were_shown() {
    let mut panel = Panel::new(sign_config(), Recorder::new()).unwrap();
    let mut a = panel.offscreen_canvas().unwrap();
    a.set_pixel(1, 1, red());
    let _b = panel.swap(a).unwrap();
    let a_again = {
        let b = _b;
        panel.swap(b).unwrap()
    };
    let mut a = a_again;
    a.set_pixel(1, 1, green());
    let _b = panel.swap(a).unwrap();
    assert_eq!(panel.backend().frame(0).unwrap().pixel(1, 1), Some(red()));
    assert_eq!(panel.backend().frame(2).unwrap().pixel(1, 1), Some(green()));
}

#[test]
fn hardware_mapping_names() {
    assert_eq!(HardwareMapping::Regular.name(), "regular");
    assert_eq!(HardwareMapping::AdafruitHat.name(), "adafruit-hat");
    assert_eq!(HardwareMapping::AdafruitHatPwm.name(), "adafruit-hat-pwm");
    assert_eq!(HardwareMapping::RegularPi1.name(), "regular-pi1");
    assert_eq!(HardwareMapping::Classic.name(), "classic");
    assert_eq!(HardwareMapping::ClassicPi1.name(), "classic-pi1");
    assert_eq!(HardwareMapping::ComputeModule.name(), "compute-module");
}
