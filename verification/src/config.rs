//! Parsing options, resource limits and the tracker that enforces them.
use vstd::prelude::*;
use crate::error::Error;

verus! {

/// Options for the box parsers.
#[derive(Debug, Clone, Copy)]
pub struct ParseOptions {
    /// When true, flag fields that should be zero may hold anything, and
    /// trailing bytes in a `pixi` box are ignored.
    pub lenient: bool,
}

impl Default for ParseOptions {
    fn default() -> (r: Self)
        ensures
            !r.lenient,
    {
        ParseOptions { lenient: false }
    }
}

/// Resource limits and validation options for a parse. A limit of `None`
/// disables that check.
#[derive(Debug, Clone, Copy)]
pub struct DecodeConfig {
    /// Largest amount of transient memory, in bytes.
    pub peak_memory_limit: Option<u64>,
    /// Largest grid canvas, in megapixels.
    pub total_megapixels_limit: Option<u32>,
    /// Largest number of animation frames.
    pub max_animation_frames: Option<u32>,
    /// Largest number of grid tiles.
    pub max_grid_tiles: Option<u32>,
    /// Lenient parsing, see [`ParseOptions`].
    pub lenient: bool,
}

impl Default for DecodeConfig {
    fn default() -> (r: Self)
        ensures
            r.peak_memory_limit == Some(1_000_000_000u64),
            r.total_megapixels_limit == Some(512u32),
            r.max_animation_frames == Some(10_000u32),
            r.max_grid_tiles == Some(1_000u32),
            !r.lenient,
    {
        DecodeConfig {
            peak_memory_limit: Some(1_000_000_000),
            total_megapixels_limit: Some(512),
            max_animation_frames: Some(10_000),
            max_grid_tiles: Some(1_000),
            lenient: false,
        }
    }
}

impl DecodeConfig {
    /// The configuration without any limit: every check is disabled and
    /// parsing is strict.
    pub open spec fn spec_unlimited() -> DecodeConfig {
        DecodeConfig {
            peak_memory_limit: None,
            total_megapixels_limit: None,
            max_animation_frames: None,
            max_grid_tiles: None,
            lenient: false,
        }
    }

    /// A configuration with no resource limits.
    pub fn unlimited() -> (r: Self)
        ensures
            r == DecodeConfig::spec_unlimited(),
    {
        DecodeConfig {
            peak_memory_limit: None,
            total_megapixels_limit: None,
            max_animation_frames: None,
            max_grid_tiles: None,
            lenient: false,
        }
    }

    /// Sets the peak memory limit in bytes.
    pub fn with_peak_memory_limit(self, bytes: u64) -> (r: Self)
        ensures
            r == (DecodeConfig { peak_memory_limit: Some(bytes), ..self }),
    {
        let mut c = self;
        c.peak_memory_limit = Some(bytes);
        c
    }

    /// Sets the megapixel limit for grid images.
    pub fn with_total_megapixels_limit(self, megapixels: u32) -> (r: Self)
        ensures
            r == (DecodeConfig { total_megapixels_limit: Some(megapixels), ..self }),
    {
        let mut c = self;
        c.total_megapixels_limit = Some(megapixels);
        c
    }

    /// Sets the largest number of animation frames.
    pub fn with_max_animation_frames(self, frames: u32) -> (r: Self)
        ensures
            r == (DecodeConfig { max_animation_frames: Some(frames), ..self }),
    {
        let mut c = self;
        c.max_animation_frames = Some(frames);
        c
    }

    /// Sets the largest number of grid tiles.
    pub fn with_max_grid_tiles(self, tiles: u32) -> (r: Self)
        ensures
            r == (DecodeConfig { max_grid_tiles: Some(tiles), ..self }),
    {
        let mut c = self;
        c.max_grid_tiles = Some(tiles);
        c
    }

    /// Switches lenient parsing on or off.
    pub fn lenient(self, lenient: bool) -> (r: Self)
        ensures
            r == (DecodeConfig { lenient: lenient, ..self }),
    {
        let mut c = self;
        c.lenient = lenient;
        c
    }

    /// The parser options that this configuration selects.
    pub fn parse_options(&self) -> (r: ParseOptions)
        ensures
            r.lenient == self.lenient,
    {
        ParseOptions { lenient: self.lenient }
    }
}

/// The canvas of `width` by `height` pixels in whole megapixels.
pub open spec fn spec_megapixels(width: u32, height: u32) -> int {
    (width as int * height as int) / 1_000_000
}

/// Counts transient memory against the configured limit and checks the
/// other quotas.
pub struct ResourceTracker {
    /// The peak memory limit taken from the configuration.
    pub peak_memory_limit: Option<u64>,
    /// The megapixel limit taken from the configuration.
    pub total_megapixels_limit: Option<u32>,
    /// The frame limit taken from the configuration.
    pub max_animation_frames: Option<u32>,
    /// The tile limit taken from the configuration.
    pub max_grid_tiles: Option<u32>,
    /// Bytes reserved and not yet released.
    pub current_memory: u64,
    /// The largest value `current_memory` has had.
    pub peak_memory: u64,
}

impl ResourceTracker {
    /// The tracker's invariant: the peak is never below the current use.
    pub open spec fn wf(self) -> bool {
        self.current_memory <= self.peak_memory
    }

    /// Nothing is reserved, and the peak has stayed within the limit.
    pub open spec fn spec_idle(self) -> bool {
        &&& self.wf()
        &&& self.current_memory == 0
        &&& self.peak_memory_limit matches Some(l) ==> self.peak_memory <= l
    }

    /// `a + b`, held at the largest `u64` when the sum exceeds it.
    pub open spec fn spec_saturating_add(a: u64, b: u64) -> u64 {
        if a + b > u64::MAX {
            u64::MAX
        } else {
            (a + b) as u64
        }
    }

    /// The tracker after `bytes` more have been reserved.
    pub open spec fn spec_reserved(self, bytes: u64) -> ResourceTracker {
        let current = Self::spec_saturating_add(self.current_memory, bytes);
        ResourceTracker {
            current_memory: current,
            peak_memory: if current > self.peak_memory {
                current
            } else {
                self.peak_memory
            },
            ..self
        }
    }

    /// The tracker after `bytes` have been given back.
    pub open spec fn spec_released(self, bytes: u64) -> ResourceTracker {
        ResourceTracker {
            current_memory: if bytes > self.current_memory {
                0u64
            } else {
                (self.current_memory - bytes) as u64
            },
            ..self
        }
    }

    /// A tracker with nothing reserved, under the limits of `config`.
    pub fn new(config: &DecodeConfig) -> (r: Self)
        ensures
            r.wf(),
            r.peak_memory_limit == config.peak_memory_limit,
            r.total_megapixels_limit == config.total_megapixels_limit,
            r.max_animation_frames == config.max_animation_frames,
            r.max_grid_tiles == config.max_grid_tiles,
            r.current_memory == 0,
            r.peak_memory == 0,
            r.spec_idle(),
    {
        ResourceTracker {
            peak_memory_limit: config.peak_memory_limit,
            total_megapixels_limit: config.total_megapixels_limit,
            max_animation_frames: config.max_animation_frames,
            max_grid_tiles: config.max_grid_tiles,
            current_memory: 0,
            peak_memory: 0,
        }
    }

    /// Reserves `bytes`. The counters are updated in either case; the call
    /// fails when the new peak exceeds the limit.
    pub fn reserve(&mut self, bytes: u64) -> (r: Result<(), Error>)
        requires
            old(self).wf(),
        ensures
            final(self).wf(),
            *final(self) == old(self).spec_reserved(bytes),
            r == (if old(self).peak_memory_limit is Some && final(self).peak_memory > old(
                self,
            ).peak_memory_limit->0 {
                Err::<(), Error>(Error::ResourceLimitExceeded("peak memory limit exceeded"))
            } else {
                Ok::<(), Error>(())
            }),
    {
        self.current_memory = if bytes > u64::MAX - self.current_memory {
            u64::MAX
        } else {
            self.current_memory + bytes
        };
        if self.current_memory > self.peak_memory {
            self.peak_memory = self.current_memory;
        }
        if let Some(limit) = self.peak_memory_limit {
            if self.peak_memory > limit {
                return Err(Error::ResourceLimitExceeded("peak memory limit exceeded"));
            }
        }
        Ok(())
    }

    /// Gives `bytes` back; the current use never goes below zero.
    pub fn release(&mut self, bytes: u64)
        requires
            old(self).wf(),
        ensures
            final(self).wf(),
            *final(self) == old(self).spec_released(bytes),
    {
        self.current_memory = if bytes > self.current_memory {
            0
        } else {
            self.current_memory - bytes
        };
    }

    /// Fails when a canvas of `width` by `height` pixels has more whole
    /// megapixels than the limit allows.
    pub fn validate_total_megapixels(&self, width: u32, height: u32) -> (r: Result<(), Error>)
        ensures
            r == (if self.total_megapixels_limit is Some && spec_megapixels(width, height)
                > self.total_megapixels_limit->0 {
                Err::<(), Error>(Error::ResourceLimitExceeded("total megapixels limit exceeded"))
            } else {
                Ok::<(), Error>(())
            }),
    {
        if let Some(limit) = self.total_megapixels_limit {
            assert(width as u64 * height as u64 <= 0xffff_ffff * 0xffff_ffff) by (nonlinear_arith)
                requires
                    width <= 0xffff_ffffu32,
                    height <= 0xffff_ffffu32,
            ;
            let megapixels: u64 = (width as u64) * (height as u64) / 1_000_000;
            if megapixels > limit as u64 {
                return Err(Error::ResourceLimitExceeded("total megapixels limit exceeded"));
            }
        }
        Ok(())
    }

    /// Fails when `count` frames are more than the limit allows.
    pub fn validate_animation_frames(&self, count: u32) -> (r: Result<(), Error>)
        ensures
            r == (if self.max_animation_frames is Some && count > self.max_animation_frames->0 {
                Err::<(), Error>(
                    Error::ResourceLimitExceeded("animation frame count limit exceeded"),
                )
            } else {
                Ok::<(), Error>(())
            }),
    {
        if let Some(limit) = self.max_animation_frames {
            if count > limit {
                return Err(Error::ResourceLimitExceeded("animation frame count limit exceeded"));
            }
        }
        Ok(())
    }

    /// Fails when `count` tiles are more than the limit allows.
    pub fn validate_grid_tiles(&self, count: u32) -> (r: Result<(), Error>)
        ensures
            r == (if self.max_grid_tiles is Some && count > self.max_grid_tiles->0 {
                Err::<(), Error>(Error::ResourceLimitExceeded("grid tile count limit exceeded"))
            } else {
                Ok::<(), Error>(())
            }),
    {
        if let Some(limit) = self.max_grid_tiles {
            if count > limit {
                return Err(Error::ResourceLimitExceeded("grid tile count limit exceeded"));
            }
        }
        Ok(())
    }
}

} // verus!
