//! Drafting aids shared by point-based commands and the status bar: which
//! object snaps run, and where a picked point comes from.

use vstd::prelude::*;

verus! {

/// The kinds of object snap.
#[derive(Debug, Clone, Copy, PartialEq, Eq, Structural)]
pub enum SnapKind {
    Endpoint,
    Midpoint,
    Center,
}

/// The object-snap modes that run while a command takes points.
#[derive(Debug, Clone, Copy, PartialEq, Eq, Structural)]
pub struct RunningSnaps {
    pub endpoint: bool,
    pub midpoint: bool,
    pub center: bool,
}

impl Default for RunningSnaps {
    /// Every mode runs.
    fn default() -> (snaps: Self)
        ensures
            snaps == (RunningSnaps { endpoint: true, midpoint: true, center: true }),
    {
        RunningSnaps { endpoint: true, midpoint: true, center: true }
    }
}

impl RunningSnaps {
    pub open spec fn runs(self, kind: SnapKind) -> bool {
        match kind {
            SnapKind::Endpoint => self.endpoint,
            SnapKind::Midpoint => self.midpoint,
            SnapKind::Center => self.center,
        }
    }

    /// Whether snaps of `kind` run.
    pub fn contains(self, kind: SnapKind) -> (runs: bool)
        ensures
            runs == self.runs(kind),
    {
        match kind {
            SnapKind::Endpoint => self.endpoint,
            SnapKind::Midpoint => self.midpoint,
            SnapKind::Center => self.center,
        }
    }
}

/// Drafting switches kept with the application settings.
#[derive(Debug, Clone, Copy, PartialEq, Eq, Structural)]
pub struct DraftingPreferences {
    pub ortho_enabled: bool,
    pub osnap_enabled: bool,
    pub running_snaps: RunningSnaps,
}

impl Default for DraftingPreferences {
    /// Ortho off, object snaps on, every snap mode running.
    fn default() -> (preferences: Self)
        ensures
            preferences == (DraftingPreferences {
                ortho_enabled: false,
                osnap_enabled: true,
                running_snaps: RunningSnaps { endpoint: true, midpoint: true, center: true },
            }),
    {
        DraftingPreferences {
            ortho_enabled: false,
            osnap_enabled: true,
            running_snaps: RunningSnaps::default(),
        }
    }
}

/// Where a resolved point comes from.
#[derive(Debug, Clone, Copy, PartialEq, Eq, Structural)]
pub enum PointSource {
    /// The acquired snap point.
    Snap,
    /// The cursor, held to the dominant axis through the base point.
    Ortho,
    /// The cursor as it is.
    Cursor,
}

impl DraftingPreferences {
    /// An acquired snap wins; otherwise ortho (reversed while Shift is held)
    /// holds the cursor to an axis through the base point, when there is one.
    pub fn point_source(self, snapped: bool, shift_held: bool, has_base: bool) -> (source:
        PointSource)
        ensures
            source == if snapped {
                PointSource::Snap
            } else if (self.ortho_enabled != shift_held) && has_base {
                PointSource::Ortho
            } else {
                PointSource::Cursor
            },
    {
        if snapped {
            PointSource::Snap
        } else if (self.ortho_enabled ^ shift_held) && has_base {
            PointSource::Ortho
        } else {
            PointSource::Cursor
        }
    }

    /// Whether object snaps are looked for at all: they are switched on and
    /// there are snap points.
    pub fn looks_for_snaps(self, has_snap_points: bool) -> (looks: bool)
        ensures
            looks == (self.osnap_enabled && has_snap_points),
    {
        self.osnap_enabled && has_snap_points
    }
}

} // verus!
