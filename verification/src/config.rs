//! The hardware configuration of a panel and its validation.

use vstd::prelude::*;
use crate::canvas::MAX_PIXELS;

verus! {

/// The largest number of PWM bits that a panel can be driven with.
pub const MAX_PWM_BITS: i32 = 11;

/// How the panel is wired to the GPIO header.
#[derive(Clone, Copy, Debug, PartialEq, Eq, Structural)]
pub enum HardwareMapping {
    Regular,
    AdafruitHat,
    AdafruitHatPwm,
    RegularPi1,
    Classic,
    ClassicPi1,
    ComputeModule,
}

impl HardwareMapping {
    /// The name by which hardware drivers know the mapping.
    pub fn name(self) -> (name: &'static str)
        ensures
            name@ == match self {
                HardwareMapping::Regular => "regular"@,
                HardwareMapping::AdafruitHat => "adafruit-hat"@,
                HardwareMapping::AdafruitHatPwm => "adafruit-hat-pwm"@,
                HardwareMapping::RegularPi1 => "regular-pi1"@,
                HardwareMapping::Classic => "classic"@,
                HardwareMapping::ClassicPi1 => "classic-pi1"@,
                HardwareMapping::ComputeModule => "compute-module"@,
            },
    {
        match self {
            HardwareMapping::Regular => "regular",
            HardwareMapping::AdafruitHat => "adafruit-hat",
            HardwareMapping::AdafruitHatPwm => "adafruit-hat-pwm",
            HardwareMapping::RegularPi1 => "regular-pi1",
            HardwareMapping::Classic => "classic",
            HardwareMapping::ClassicPi1 => "classic-pi1",
            HardwareMapping::ComputeModule => "compute-module",
        }
    }

    /// The width in pixels of one module that is `rows` pixels high. Every
    /// mapping drives square modules, so a module is as wide as it is high.
    pub open spec fn module_width(self, rows: int) -> int {
        rows
    }
}

/// Why a configuration was refused.
#[derive(Clone, Copy, Debug, PartialEq, Eq, Structural)]
pub enum ConfigError {
    /// `rows` is not positive.
    InvalidRows,
    /// `chain_length` is not positive.
    InvalidChainLength,
    /// `pwm_bits` lies outside `1..=MAX_PWM_BITS`.
    InvalidPwmBits,
    /// `pwm_lsb_nanoseconds` is not positive.
    InvalidPwmLsbNanoseconds,
    /// `gpio_slowdown` is negative.
    InvalidGpioSlowdown,
    /// The chain holds more than `MAX_PIXELS` pixels.
    TooLarge,
}

/// The hardware configuration of a panel: a chain of `chain_length` modules,
/// each `rows` pixels high, and the timing they are driven with.
#[derive(Clone, Copy, Debug, PartialEq, Eq, Structural)]
pub struct PanelConfig {
    pub hardware_mapping: HardwareMapping,
    pub rows: i32,
    pub chain_length: i32,
    pub pwm_bits: i32,
    pub pwm_lsb_nanoseconds: i32,
    pub gpio_slowdown: i32,
}

impl PanelConfig {
    /// The width of the panel's canvases: the modules of the chain side by
    /// side.
    pub open spec fn canvas_width(self) -> int {
        self.chain_length * self.hardware_mapping.module_width(self.rows as int)
    }

    /// The height of the panel's canvases.
    pub open spec fn canvas_height(self) -> int {
        self.rows as int
    }

    /// The first fault of the configuration, taking the fields in order and
    /// the size of the chain last; `None` where there is none.
    pub open spec fn fault(self) -> Option<ConfigError> {
        if self.rows <= 0 {
            Some(ConfigError::InvalidRows)
        } else if self.chain_length <= 0 {
            Some(ConfigError::InvalidChainLength)
        } else if self.pwm_bits < 1 || self.pwm_bits > MAX_PWM_BITS {
            Some(ConfigError::InvalidPwmBits)
        } else if self.pwm_lsb_nanoseconds <= 0 {
            Some(ConfigError::InvalidPwmLsbNanoseconds)
        } else if self.gpio_slowdown < 0 {
            Some(ConfigError::InvalidGpioSlowdown)
        } else if self.canvas_width() * self.canvas_height() > MAX_PIXELS {
            Some(ConfigError::TooLarge)
        } else {
            None
        }
    }

    /// Whether the configuration has no fault.
    pub open spec fn valid(self) -> bool {
        self.fault() is None
    }

    /// Checks the configuration, and says what its first fault is.
    pub fn validate(&self) -> (checked: Result<(), ConfigError>)
        ensures
            checked == match self.fault() {
                Some(error) => Err::<(), ConfigError>(error),
                None => Ok::<(), ConfigError>(()),
            },
    {
        if self.rows <= 0 {
            return Err(ConfigError::InvalidRows);
        }
        if self.chain_length <= 0 {
            return Err(ConfigError::InvalidChainLength);
        }
        if self.pwm_bits < 1 || self.pwm_bits > MAX_PWM_BITS {
            return Err(ConfigError::InvalidPwmBits);
        }
        if self.pwm_lsb_nanoseconds <= 0 {
            return Err(ConfigError::InvalidPwmLsbNanoseconds);
        }
        if self.gpio_slowdown < 0 {
            return Err(ConfigError::InvalidGpioSlowdown);
        }
        assert(0 < self.chain_length * self.rows <= 0x4000_0000_0000_0000) by (nonlinear_arith)
            requires
                0 < self.chain_length <= 0x7fff_ffff,
                0 < self.rows <= 0x7fff_ffff,
        ;
        let width: i64 = self.chain_length as i64 * self.rows as i64;
        if width > MAX_PIXELS as i64 {
            assert(self.canvas_width() * self.canvas_height() > MAX_PIXELS) by (nonlinear_arith)
                requires
                    self.canvas_width() > MAX_PIXELS,
                    self.canvas_height() >= 1,
            ;
            return Err(ConfigError::TooLarge);
        }
        assert(width * self.rows <= 0x4000_0000_0000_0000) by (nonlinear_arith)
            requires
                0 < width <= 0x7fff_ffff,
                0 < self.rows <= 0x7fff_ffff,
        ;
        if width * self.rows as i64 > MAX_PIXELS as i64 {
            return Err(ConfigError::TooLarge);
        }
        Ok(())
    }
}

/// The canvas of a valid configuration fits the limits of the pixel type:
/// its sides are positive and no larger than `MAX_PIXELS`.
pub proof fn lemma_valid_geometry(config: PanelConfig)
    requires
        config.valid(),
    ensures
        0 < config.canvas_width() <= MAX_PIXELS,
        0 < config.canvas_height() <= MAX_PIXELS,
        config.canvas_width() * config.canvas_height() <= MAX_PIXELS,
{
    let w = config.canvas_width();
    let h = config.canvas_height();
    assert(0 < w) by (nonlinear_arith)
        requires
            w == config.chain_length * config.rows,
            0 < config.chain_length,
            0 < config.rows,
    ;
    assert(w <= w * h && h <= w * h) by (nonlinear_arith)
        requires
            0 < w,
            0 < h,
    ;
}

} // verus!
