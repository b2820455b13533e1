//! What the windows show: the dashboard's snapshot and the desktop
//! overlay's settings.
use vstd::prelude::*;
use crate::collector::ProcessMetric;
use crate::metrics::MetricsSnapshot;

verus! {

/// Everything the dashboard shows after one tick.  Per-process network
/// rates are not measured, so they stay zero rather than being estimated
/// from the machine's rates.
pub struct DashboardSnapshot {
    pub metrics: MetricsSnapshot,
    pub processes: Vec<ProcessMetric>,
    pub interfaces: Vec<String>,
}

/// Settings of the always-on-top desktop overlay.
#[derive(Clone, Copy, Debug, PartialEq, Eq, Structural)]
pub struct OverlaySettings {
    pub show_network_down: bool,
    pub show_network_up: bool,
    pub show_disk_read: bool,
    pub show_disk_write: bool,
    pub show_session_total: bool,
    pub show_session_duration: bool,
    /// Opacity in percent.
    pub opacity: u8,
}

/// The overlay is never fainter than this...
pub const MIN_OPACITY: u8 = 35;

/// ...nor more opaque than this.
pub const MAX_OPACITY: u8 = 92;

impl Default for OverlaySettings {
    /// Download and upload rates shown, at 72 % opacity.
    fn default() -> (s: Self)
        ensures
            s == (OverlaySettings {
                show_network_down: true,
                show_network_up: true,
                show_disk_read: false,
                show_disk_write: false,
                show_session_total: false,
                show_session_duration: false,
                opacity: 72,
            }),
    {
        OverlaySettings {
            show_network_down: true,
            show_network_up: true,
            show_disk_read: false,
            show_disk_write: false,
            show_session_total: false,
            show_session_duration: false,
            opacity: 72,
        }
    }
}

/// `opacity` brought into the allowed range.
pub open spec fn clamped_opacity(opacity: u8) -> u8 {
    if opacity < MIN_OPACITY {
        MIN_OPACITY
    } else if opacity > MAX_OPACITY {
        MAX_OPACITY
    } else {
        opacity
    }
}

impl OverlaySettings {
    /// The settings with the opacity brought into the allowed range; the
    /// other settings are kept.
    pub fn normalized(self) -> (s: Self)
        ensures
            s == (OverlaySettings { opacity: clamped_opacity(self.opacity), ..self }),
            MIN_OPACITY <= s.opacity <= MAX_OPACITY,
            self.opacity < MIN_OPACITY ==> s.opacity == MIN_OPACITY,
            self.opacity > MAX_OPACITY ==> s.opacity == MAX_OPACITY,
            MIN_OPACITY <= self.opacity <= MAX_OPACITY ==> s.opacity == self.opacity,
    {
        let mut s = self;
        if s.opacity < MIN_OPACITY {
            s.opacity = MIN_OPACITY;
        } else if s.opacity > MAX_OPACITY {
            s.opacity = MAX_OPACITY;
        }
        s
    }
}

/// Normalized settings have an allowed opacity, and normalizing them again
/// changes nothing.
pub proof fn lemma_normalized_opacity_allowed(s: OverlaySettings)
    ensures
        MIN_OPACITY <= clamped_opacity(s.opacity) <= MAX_OPACITY,
        clamped_opacity(clamped_opacity(s.opacity)) == clamped_opacity(s.opacity),
        MIN_OPACITY <= s.opacity <= MAX_OPACITY ==> clamped_opacity(s.opacity) == s.opacity,
{
}

} // verus!
