use vstd::prelude::*;

verus! {

/// Why a store operation did not take effect.
#[derive(Clone, Copy, Debug, PartialEq, Eq, Structural)]
pub enum StoreError {
    /// A referenced project, track, asset or clip does not exist.
    NotFound,
    /// The write would break a reference between records.
    ConstraintViolation,
    /// A clip was to be changed on a locked track.
    LockedTrack,
    /// The store could not complete the operation (a table is full).
    TransactionFailure,
}

impl StoreError {
    /// The message shown for this error at the command boundary.
    pub fn message(&self) -> (r: String)
        ensures
            *self == StoreError::NotFound ==> r@ == "Record not found"@,
            *self == StoreError::ConstraintViolation ==> r@ == "Constraint violation"@,
            *self == StoreError::LockedTrack ==> r@ == "Track is locked"@,
            *self == StoreError::TransactionFailure ==> r@ == "Transaction failed"@,
    {
        match self {
            StoreError::NotFound => String::from_str("Record not found"),
            StoreError::ConstraintViolation => String::from_str("Constraint violation"),
            StoreError::LockedTrack => String::from_str("Track is locked"),
            StoreError::TransactionFailure => String::from_str("Transaction failed"),
        }
    }
}

/// A timeline edit: the container of tracks and assets.
#[derive(Debug)]
pub struct Project {
    pub id: i32,
    pub name: String,
    pub duration_ms: i32,
    pub frame_rate: i32,
    pub resolution_width: i32,
    pub resolution_height: i32,
    pub created_at: String,
    pub updated_at: String,
}

/// The fields of a project that its creator chooses.
#[derive(Clone, Debug)]
pub struct NewProject {
    pub name: String,
    pub frame_rate: i32,
    pub resolution_width: i32,
    pub resolution_height: i32,
}

/// An imported media file's metadata, owned by one project.
#[derive(Debug)]
pub struct Asset {
    pub id: i32,
    pub project_id: i32,
    pub file_path: String,
    pub asset_type: String,
    pub duration_ms: Option<i32>,
    pub width: Option<i32>,
    pub height: Option<i32>,
    pub file_size_bytes: i32,
    pub imported_at: String,
}

/// The fields of an asset that its importer chooses.
#[derive(Clone, Debug)]
pub struct NewAsset {
    pub project_id: i32,
    pub file_path: String,
    pub asset_type: String,
    pub duration_ms: Option<i32>,
    pub width: Option<i32>,
    pub height: Option<i32>,
    pub file_size_bytes: i32,
}

/// An ordered lane of a project; `order_index` is its stacking rank.
#[derive(Debug)]
pub struct Track {
    pub id: i32,
    pub project_id: i32,
    pub track_type: String,
    pub order_index: i32,
    pub is_locked: bool,
    pub is_muted: bool,
}

/// The fields of a track that its creator chooses.
#[derive(Clone, Debug)]
pub struct NewTrack {
    pub project_id: i32,
    pub track_type: String,
    pub order_index: i32,
}

/// A placed, time-bounded reference to a trimmed part of an asset.
/// `asset_id` is `None` for a gap clip. The volume is in percent (100 is unity gain).
#[derive(Clone, Copy, Debug, PartialEq, Eq, Structural)]
pub struct Clip {
    pub id: i32,
    pub track_id: i32,
    pub asset_id: Option<i32>,
    pub start_time_ms: i32,
    pub duration_ms: i32,
    pub asset_start_offset_ms: i32,
    pub asset_end_offset_ms: i32,
    pub volume_percent: i32,
    pub is_muted: bool,
}

/// The fields of a clip that its creator chooses.
#[derive(Clone, Copy, Debug, PartialEq, Eq, Structural)]
pub struct NewClip {
    pub track_id: i32,
    pub asset_id: Option<i32>,
    pub start_time_ms: i32,
    pub duration_ms: i32,
    pub asset_start_offset_ms: i32,
    pub asset_end_offset_ms: i32,
}

/// A track together with the clip it was created with.
#[derive(Clone, Debug)]
pub struct TrackWithClip {
    pub track: Track,
    pub clip: Clip,
}

impl Clone for Project {
    fn clone(&self) -> (r: Self)
        ensures
            r == *self,
    {
        Project {
            id: self.id,
            name: self.name.clone(),
            duration_ms: self.duration_ms,
            frame_rate: self.frame_rate,
            resolution_width: self.resolution_width,
            resolution_height: self.resolution_height,
            created_at: self.created_at.clone(),
            updated_at: self.updated_at.clone(),
        }
    }
}

impl Clone for Asset {
    fn clone(&self) -> (r: Self)
        ensures
            r == *self,
    {
        Asset {
            id: self.id,
            project_id: self.project_id,
            file_path: self.file_path.clone(),
            asset_type: self.asset_type.clone(),
            duration_ms: self.duration_ms,
            width: self.width,
            height: self.height,
            file_size_bytes: self.file_size_bytes,
            imported_at: self.imported_at.clone(),
        }
    }
}

impl Clone for Track {
    fn clone(&self) -> (r: Self)
        ensures
            r == *self,
    {
        Track {
            id: self.id,
            project_id: self.project_id,
            track_type: self.track_type.clone(),
            order_index: self.order_index,
            is_locked: self.is_locked,
            is_muted: self.is_muted,
        }
    }
}

/// Unity gain, in percent.
pub const DEFAULT_VOLUME_PERCENT: i32 = 100;

/// Frame rate of a project created without one.
pub const DEFAULT_FRAME_RATE: i32 = 30;

/// Width of a project created without one.
pub const DEFAULT_RESOLUTION_WIDTH: i32 = 1920;

/// Height of a project created without one.
pub const DEFAULT_RESOLUTION_HEIGHT: i32 = 1080;

/// How many times a command runs before a `TransactionFailure` reaches its caller.
pub const MAX_ATTEMPTS: u32 = 2;

/// Whether a command that failed with `e` after `attempts` runs is run again: only a
/// transaction the store aborted is retried, and only once.
pub fn should_retry(e: StoreError, attempts: u32) -> (r: bool)
    ensures
        r == (e == StoreError::TransactionFailure && attempts < MAX_ATTEMPTS),
{
    e == StoreError::TransactionFailure && attempts < MAX_ATTEMPTS
}

/// `NotFound` unless the referenced record was found.
pub fn check_found(found: bool) -> (r: Result<(), StoreError>)
    ensures
        found ==> r == Ok::<(), StoreError>(()),
        !found ==> r == Err::<(), StoreError>(StoreError::NotFound),
{
    if found {
        Ok(())
    } else {
        Err(StoreError::NotFound)
    }
}

/// `ConstraintViolation` unless an asset of project `asset_project_id` may be placed in project
/// `project_id`: a clip's asset belongs to the clip's project.
pub fn check_same_project(asset_project_id: i32, project_id: i32) -> (r: Result<(), StoreError>)
    ensures
        asset_project_id == project_id ==> r == Ok::<(), StoreError>(()),
        asset_project_id != project_id ==> r == Err::<(), StoreError>(
            StoreError::ConstraintViolation,
        ),
{
    if asset_project_id == project_id {
        Ok(())
    } else {
        Err(StoreError::ConstraintViolation)
    }
}

/// `ConstraintViolation` for a clip start before the timeline's origin.
pub fn check_clip_start(start_time_ms: i32) -> (r: Result<(), StoreError>)
    ensures
        start_time_ms >= 0 ==> r == Ok::<(), StoreError>(()),
        start_time_ms < 0 ==> r == Err::<(), StoreError>(StoreError::ConstraintViolation),
{
    if start_time_ms >= 0 {
        Ok(())
    } else {
        Err(StoreError::ConstraintViolation)
    }
}

/// A project's frame rate and resolution are all positive.
pub open spec fn settings_valid(frame_rate: int, resolution_width: int, resolution_height: int) -> bool {
    frame_rate > 0 && resolution_width > 0 && resolution_height > 0
}

/// Checks a project's frame rate and resolution.
pub fn settings_are_valid(frame_rate: i32, resolution_width: i32, resolution_height: i32) -> (r: bool)
    ensures
        r == settings_valid(frame_rate as int, resolution_width as int, resolution_height as int),
{
    frame_rate > 0 && resolution_width > 0 && resolution_height > 0
}

/// An asset's duration, dimensions (where known) and file size are not negative.
pub open spec fn asset_values_valid(
    duration_ms: Option<i32>,
    width: Option<i32>,
    height: Option<i32>,
    file_size_bytes: int,
) -> bool {
    &&& file_size_bytes >= 0
    &&& (duration_ms matches Some(d) ==> d >= 0)
    &&& (width matches Some(w) ==> w >= 0)
    &&& (height matches Some(h) ==> h >= 0)
}

/// Checks an asset's duration, dimensions and file size.
pub fn asset_values_are_valid(
    duration_ms: Option<i32>,
    width: Option<i32>,
    height: Option<i32>,
    file_size_bytes: i32,
) -> (r: bool)
    ensures
        r == asset_values_valid(duration_ms, width, height, file_size_bytes as int),
{
    if file_size_bytes < 0 {
        return false;
    }
    let d_ok = match duration_ms {
        Some(d) => d >= 0,
        None => true,
    };
    let w_ok = match width {
        Some(w) => w >= 0,
        None => true,
    };
    let h_ok = match height {
        Some(h) => h >= 0,
        None => true,
    };
    d_ok && w_ok && h_ok
}

/// A project's frame rate and resolution, with 30 frames per second and 1920 by 1080 in place
/// of what is not given.
pub fn resolve_settings(
    frame_rate: Option<i32>,
    resolution_width: Option<i32>,
    resolution_height: Option<i32>,
) -> (r: (i32, i32, i32))
    ensures
        r.0 == frame_rate.unwrap_or(DEFAULT_FRAME_RATE),
        r.1 == resolution_width.unwrap_or(DEFAULT_RESOLUTION_WIDTH),
        r.2 == resolution_height.unwrap_or(DEFAULT_RESOLUTION_HEIGHT),
{
    let f = match frame_rate {
        Some(f) => f,
        None => DEFAULT_FRAME_RATE,
    };
    let w = match resolution_width {
        Some(w) => w,
        None => DEFAULT_RESOLUTION_WIDTH,
    };
    let h = match resolution_height {
        Some(h) => h,
        None => DEFAULT_RESOLUTION_HEIGHT,
    };
    (f, w, h)
}

/// The row a store writes for a new clip: the chosen fields, unity gain, not muted.
pub open spec fn clip_row(id: i32, c: NewClip) -> Clip {
    Clip {
        id,
        track_id: c.track_id,
        asset_id: c.asset_id,
        start_time_ms: c.start_time_ms,
        duration_ms: c.duration_ms,
        asset_start_offset_ms: c.asset_start_offset_ms,
        asset_end_offset_ms: c.asset_end_offset_ms,
        volume_percent: DEFAULT_VOLUME_PERCENT,
        is_muted: false,
    }
}

/// The duration a clip takes from its asset: the asset's own, or 0 for a still.
pub open spec fn asset_clip_duration(a: Asset) -> i32 {
    match a.duration_ms {
        Some(d) => d,
        None => 0,
    }
}

/// The seed clip of a new track: the whole asset placed at `start_time_ms`.
pub fn seed_clip(track_id: i32, asset: &Asset, start_time_ms: i32) -> (r: NewClip)
    ensures
        r.track_id == track_id,
        r.asset_id == Some(asset.id),
        r.start_time_ms == start_time_ms,
        r.duration_ms == asset_clip_duration(*asset),
        r.asset_start_offset_ms == 0,
        r.asset_end_offset_ms == 0,
{
    let duration_ms: i32 = match asset.duration_ms {
        Some(d) => d,
        None => 0,
    };
    NewClip {
        track_id,
        asset_id: Some(asset.id),
        start_time_ms,
        duration_ms,
        asset_start_offset_ms: 0,
        asset_end_offset_ms: 0,
    }
}

/// The order index that follows the largest one of a project, or 0 when the project has no
/// track. `None` when the largest is already `i32::MAX`.
pub fn next_order_index(max_order: Option<i32>) -> (r: Option<i32>)
    ensures
        max_order.is_none() ==> r == Some(0i32),
        max_order.is_some() && max_order.unwrap() < i32::MAX ==> r == Some(
            (max_order.unwrap() + 1) as i32,
        ),
        max_order.is_some() && max_order.unwrap() == i32::MAX ==> r.is_none(),
{
    match max_order {
        None => Some(0),
        Some(o) => {
            if o < i32::MAX {
                Some(o + 1)
            } else {
                None
            }
        },
    }
}

/// Whether a trim window fits its asset: `0 <= start < end <= duration` where the asset's
/// duration is known, `0 <= start < end` where it is not.
pub open spec fn trim_fits(start: int, end: int, duration: Option<i32>) -> bool {
    &&& 0 <= start < end
    &&& match duration {
        Some(d) => end <= d,
        None => true,
    }
}

/// Checks a trim window against the asset's duration.
pub fn trim_is_valid(start: i32, end: i32, duration: Option<i32>) -> (r: bool)
    ensures
        r == trim_fits(start as int, end as int, duration),
{
    if start < 0 || start >= end {
        return false;
    }
    match duration {
        Some(d) => end <= d,
        None => true,
    }
}

} // verus!
