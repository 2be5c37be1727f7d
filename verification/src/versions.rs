//! Version counters that decide when GPU buffers must be rebuilt.
//!
//! The plot state bumps a counter whenever the data behind a buffer changes; the
//! renderer remembers the counters it last uploaded and rebuilds a buffer when
//! its counter moved or when the camera's render offset moved (vertex positions
//! are stored relative to that offset).

use vstd::prelude::*;

verus! {

/// Version counters of the plot state's renderable data.
#[derive(Debug, Clone, Copy, PartialEq, Eq, Structural)]
pub struct DataVersions {
    /// Version of the marker data.
    pub markers: u64,
    /// Version of the image data.
    pub images: u64,
    /// Version of the line data.
    pub lines: u64,
    /// Version of the fill data.
    pub fills: u64,
    /// Version of the hover/pick highlight data.
    pub highlight: u64,
}

/// The counters of a fresh plot state: data counters start at one, so that a
/// fresh renderer uploads them, and the highlight counter at zero.
pub open spec fn initial_data_versions() -> DataVersions {
    DataVersions { markers: 1, images: 1, lines: 1, fills: 1, highlight: 0 }
}

/// `v` advanced by one, wrapping around at the top of `u64`.
pub open spec fn next_version(v: u64) -> u64 {
    if v == u64::MAX { 0 } else { (v + 1) as u64 }
}

impl DataVersions {
    /// Counters of a fresh plot state.
    pub fn new() -> (res: Self)
        ensures
            res == initial_data_versions(),
    {
        DataVersions { markers: 1, images: 1, lines: 1, fills: 1, highlight: 0 }
    }

    /// Records that the plot geometry was rebuilt from the widget: the marker,
    /// image, line and fill counters advance; the highlight counter, which only
    /// tracks hover and pick changes, stays.
    pub fn bump_geometry(&mut self)
        ensures
            *final(self) == (DataVersions {
                markers: next_version(old(self).markers),
                images: next_version(old(self).images),
                lines: next_version(old(self).lines),
                fills: next_version(old(self).fills),
                highlight: old(self).highlight,
            }),
    {
        self.markers = self.markers.wrapping_add(1);
        self.images = self.images.wrapping_add(1);
        self.lines = self.lines.wrapping_add(1);
        self.fills = self.fills.wrapping_add(1);
    }

    /// Records the outcome of syncing the highlighted points: when they
    /// `changed`, the highlight counter advances. Returns `changed`.
    pub fn note_highlight_sync(&mut self, changed: bool) -> (res: bool)
        ensures
            res == changed,
            *final(self) == (DataVersions {
                highlight: if changed { next_version(old(self).highlight) } else { old(self).highlight },
                ..*old(self)
            }),
    {
        if changed {
            self.highlight = self.highlight.wrapping_add(1);
            true
        } else {
            false
        }
    }
}

/// The counters that the renderer last uploaded.
#[derive(Debug, Clone, Copy, PartialEq, Eq, Structural)]
pub struct VersionTracker {
    /// Uploaded image version.
    pub images: u64,
    /// Uploaded marker version.
    pub markers: u64,
    /// Uploaded fill version.
    pub fills: u64,
    /// Uploaded line version.
    pub lines: u64,
    /// Uploaded highlight version.
    pub highlight: u64,
}

/// Which buffers a frame rebuilds. Reference lines, the selection overlay and
/// the crosshairs are rebuilt on every frame and are not listed.
#[derive(Debug, Clone, Copy, PartialEq, Eq, Structural)]
pub struct SyncPlan {
    /// Rebuild the image buffers.
    pub rebuild_images: bool,
    /// Rebuild the marker buffer.
    pub rebuild_markers: bool,
    /// Rebuild the fill buffer.
    pub rebuild_fills: bool,
    /// Rebuild the line buffer.
    pub rebuild_lines: bool,
    /// Rebuild the highlight buffers.
    pub rebuild_highlight: bool,
}

/// The plan for syncing data at versions `v` into a renderer that uploaded
/// `t`: a buffer is rebuilt when its counter differs or the render offset moved.
pub open spec fn sync_plan(t: VersionTracker, v: DataVersions, offset_changed: bool) -> SyncPlan {
    SyncPlan {
        rebuild_images: v.images != t.images || offset_changed,
        rebuild_markers: v.markers != t.markers || offset_changed,
        rebuild_fills: v.fills != t.fills || offset_changed,
        rebuild_lines: v.lines != t.lines || offset_changed,
        rebuild_highlight: v.highlight != t.highlight || offset_changed,
    }
}

/// The tracker that has uploaded everything at versions `v`.
pub open spec fn tracker_at(v: DataVersions) -> VersionTracker {
    VersionTracker {
        images: v.images,
        markers: v.markers,
        fills: v.fills,
        lines: v.lines,
        highlight: v.highlight,
    }
}

/// A plan that rebuilds nothing.
pub open spec fn idle_plan() -> SyncPlan {
    SyncPlan {
        rebuild_images: false,
        rebuild_markers: false,
        rebuild_fills: false,
        rebuild_lines: false,
        rebuild_highlight: false,
    }
}

impl VersionTracker {
    /// A renderer that has uploaded nothing yet.
    pub fn new() -> (res: Self)
        ensures
            res == (VersionTracker { images: 0, markers: 0, fills: 0, lines: 0, highlight: 0 }),
    {
        VersionTracker { images: 0, markers: 0, fills: 0, lines: 0, highlight: 0 }
    }

    /// Decides which buffers to rebuild for data at `versions`, and records
    /// those versions as uploaded.
    pub fn plan_sync(&mut self, versions: &DataVersions, offset_changed: bool) -> (plan: SyncPlan)
        ensures
            plan == sync_plan(*old(self), *versions, offset_changed),
            *final(self) == tracker_at(*versions),
    {
        let plan = SyncPlan {
            rebuild_images: versions.images != self.images || offset_changed,
            rebuild_markers: versions.markers != self.markers || offset_changed,
            rebuild_fills: versions.fills != self.fills || offset_changed,
            rebuild_lines: versions.lines != self.lines || offset_changed,
            rebuild_highlight: versions.highlight != self.highlight || offset_changed,
        };
        if plan.rebuild_images {
            self.images = versions.images;
        }
        if plan.rebuild_markers {
            self.markers = versions.markers;
        }
        if plan.rebuild_fills {
            self.fills = versions.fills;
        }
        if plan.rebuild_lines {
            self.lines = versions.lines;
        }
        if plan.rebuild_highlight {
            self.highlight = versions.highlight;
        }
        plan
    }
}

/// Syncing is idempotent: once a renderer has synced data at versions `v`,
/// syncing the same versions again without an offset change rebuilds nothing.
pub proof fn lemma_sync_idempotent(v: DataVersions)
    ensures
        sync_plan(tracker_at(v), v, false) == idle_plan(),
{
}

/// When a renderer has synced versions `v` and the plot geometry is then
/// rebuilt, the next sync rebuilds the image, marker, fill and line buffers,
/// and the highlight buffers only when the render offset moved (a geometry
/// rebuild leaves the highlight version as it was).
pub proof fn lemma_geometry_bump_forces_rebuild(v: DataVersions, offset_changed: bool)
    ensures
        ({
            let bumped = DataVersions {
                markers: next_version(v.markers),
                images: next_version(v.images),
                lines: next_version(v.lines),
                fills: next_version(v.fills),
                highlight: v.highlight,
            };
            let plan = sync_plan(tracker_at(v), bumped, offset_changed);
            &&& plan.rebuild_images
            &&& plan.rebuild_markers
            &&& plan.rebuild_fills
            &&& plan.rebuild_lines
            &&& plan.rebuild_highlight == offset_changed
        }),
{
}

/// A highlight change alone makes the next sync rebuild the highlight buffers
/// and, without an offset change, nothing else.
pub proof fn lemma_highlight_change_rebuilds_only_highlight(v: DataVersions)
    ensures
        sync_plan(
            tracker_at(v),
            DataVersions { highlight: next_version(v.highlight), ..v },
            false,
        ) == (SyncPlan { rebuild_highlight: true, ..idle_plan() }),
{
}

/// A fresh renderer syncing a fresh plot state uploads the image, marker, fill
/// and line data, and skips the (empty) highlight unless the offset moved.
pub proof fn lemma_first_sync_uploads_data(offset_changed: bool)
    ensures
        sync_plan(
            VersionTracker { images: 0, markers: 0, fills: 0, lines: 0, highlight: 0 },
            initial_data_versions(),
            offset_changed,
        ) == (SyncPlan {
            rebuild_images: true,
            rebuild_markers: true,
            rebuild_fills: true,
            rebuild_lines: true,
            rebuild_highlight: offset_changed,
        }),
{
}

} // verus!
