use vstd::prelude::*;

verus! {

/// The monitor the game is shown on: the configured index, never negative.
pub struct MonitorSelection {
    pub index: i32,
}

impl MonitorSelection {
    /// Remembers the configured monitor, negative values counting as the
    /// primary one.
    pub fn new(configured: i32) -> (m: Self)
        ensures
            m.index == (if configured < 0 { 0 } else { configured }),
    {
        MonitorSelection { index: if configured < 0 { 0 } else { configured } }
    }

    /// The configured monitor index.
    pub fn preferred_adapter(&self) -> (i: i32)
        ensures
            i == self.index,
    {
        self.index
    }

    /// The adapter to create the device on: the configured one when it exists
    /// among `adapter_count` adapters, the primary one otherwise.
    pub fn select_adapter(&self, adapter_count: u32) -> (a: u32)
        ensures
            a == (if 0 <= self.index < adapter_count { self.index as u32 } else { 0u32 }),
    {
        let configured: u32 = if self.index < 0 { 0 } else { self.index as u32 };
        if configured < adapter_count {
            configured
        } else {
            0
        }
    }
}

/// The presentation parameters of a Direct3D 9 device.
#[derive(Clone, Copy)]
pub struct D3dPresentParameters {
    pub back_buffer_width: u32,
    pub back_buffer_height: u32,
    pub back_buffer_format: u32,
    pub back_buffer_count: u32,
    pub multi_sample_type: u32,
    pub multi_sample_quality: u32,
    pub swap_effect: u32,
    pub device_window: usize,
    pub windowed: i32,
    pub enable_auto_depth_stencil: i32,
    pub auto_depth_stencil_format: u32,
    pub flags: u32,
    pub full_screen_refresh_rate_in_hz: u32,
    pub presentation_interval: u32,
}

impl Default for D3dPresentParameters {
    /// All fields zero.
    fn default() -> (p: Self)
        ensures
            p.back_buffer_width == 0 && p.back_buffer_height == 0 && p.back_buffer_format == 0
                && p.back_buffer_count == 0 && p.multi_sample_type == 0 && p.multi_sample_quality == 0
                && p.swap_effect == 0 && p.device_window == 0 && p.windowed == 0 && p.enable_auto_depth_stencil == 0
                && p.auto_depth_stencil_format == 0 && p.flags == 0 && p.full_screen_refresh_rate_in_hz == 0
                && p.presentation_interval == 0,
    {
        D3dPresentParameters {
            back_buffer_width: 0,
            back_buffer_height: 0,
            back_buffer_format: 0,
            back_buffer_count: 0,
            multi_sample_type: 0,
            multi_sample_quality: 0,
            swap_effect: 0,
            device_window: 0,
            windowed: 0,
            enable_auto_depth_stencil: 0,
            auto_depth_stencil_format: 0,
            flags: 0,
            full_screen_refresh_rate_in_hz: 0,
            presentation_interval: 0,
        }
    }
}

impl D3dPresentParameters {
    /// Switches the parameters to windowed mode, which also requires a zero
    /// full-screen refresh rate; nothing else changes.
    pub fn force_windowed(&mut self)
        ensures
            *final(self) == (D3dPresentParameters { windowed: 1, full_screen_refresh_rate_in_hz: 0, ..*old(self) }),
    {
        self.windowed = 1;
        self.full_screen_refresh_rate_in_hz = 0;
    }
}

} // verus!
