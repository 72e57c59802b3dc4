use vstd::prelude::*;

use crate::models::{
    asset_clip_duration, asset_values_are_valid, asset_values_valid, check_clip_start, check_same_project, clip_row, next_order_index, resolve_settings, seed_clip, settings_are_valid, settings_valid, Asset, Clip, NewTrack, Project, StoreError, Track, TrackWithClip, DEFAULT_FRAME_RATE,
    DEFAULT_RESOLUTION_HEIGHT, DEFAULT_RESOLUTION_WIDTH, DEFAULT_VOLUME_PERCENT, trim_fits,
    trim_is_valid,
};

verus! {

broadcast use vstd::seq_lib::group_seq_properties;

/// The four relations of a timeline: projects, assets, tracks and clips.
///
/// Each record's id is one more than its position in its relation, so ids are unique and
/// assigned in creation order. Every operation takes the store by `&mut` and either makes
/// all of its writes or none, which is what a transaction gives.
pub struct Store {
    projects: Vec<Project>,
    assets: Vec<Asset>,
    tracks: Vec<Track>,
    clips: Vec<Clip>,
}

/// Selects the tracks of one project.
pub open spec fn in_project(project_id: i32) -> spec_fn(Track) -> bool {
    |t: Track| t.project_id == project_id
}

/// Selects the assets of one project.
pub open spec fn owned_by(project_id: i32) -> spec_fn(Asset) -> bool {
    |a: Asset| a.project_id == project_id
}

/// Selects the clips of one track.
pub open spec fn on_track(track_id: i32) -> spec_fn(Clip) -> bool {
    |c: Clip| c.track_id == track_id
}

/// Every track's order index is the number of tracks of its project created before it.
pub open spec fn orders_dense(tracks: Seq<Track>) -> bool {
    forall|i: int|
        0 <= i < tracks.len() ==> #[trigger] tracks[i].order_index == tracks.take(i).filter(
            in_project(tracks[i].project_id),
        ).len()
}

/// Clip `a` comes before clip `b` in a track's arrangement: earlier start, then lower id.
pub open spec fn clip_before(a: Clip, b: Clip) -> bool {
    a.start_time_ms < b.start_time_ms || (a.start_time_ms == b.start_time_ms && a.id < b.id)
}

/// The clips are in arrangement order.
pub open spec fn arranged(s: Seq<Clip>) -> bool {
    forall|i: int, j: int| 0 <= i < j < s.len() ==> clip_before(#[trigger] s[i], #[trigger] s[j])
}

impl Store {
    pub closed spec fn projects(&self) -> Seq<Project> {
        self.projects@
    }

    pub closed spec fn assets(&self) -> Seq<Asset> {
        self.assets@
    }

    pub closed spec fn tracks(&self) -> Seq<Track> {
        self.tracks@
    }

    pub closed spec fn clips(&self) -> Seq<Clip> {
        self.clips@
    }

    pub open spec fn has_project(&self, id: int) -> bool {
        1 <= id <= self.projects().len()
    }

    pub open spec fn has_asset(&self, id: int) -> bool {
        1 <= id <= self.assets().len()
    }

    pub open spec fn has_track(&self, id: int) -> bool {
        1 <= id <= self.tracks().len()
    }

    pub open spec fn asset(&self, id: int) -> Asset {
        self.assets()[id - 1]
    }

    pub open spec fn track(&self, id: int) -> Track {
        self.tracks()[id - 1]
    }

    /// The tracks of a project, in creation order.
    pub open spec fn project_tracks(&self, project_id: i32) -> Seq<Track> {
        self.tracks().filter(in_project(project_id))
    }

    /// The assets of a project, in import order.
    pub open spec fn project_assets(&self, project_id: i32) -> Seq<Asset> {
        self.assets().filter(owned_by(project_id))
    }

    /// The clips of a track, in creation order.
    pub open spec fn track_clips(&self, track_id: i32) -> Seq<Clip> {
        self.clips().filter(on_track(track_id))
    }

    /// The store's invariant: ids follow positions, every reference points at an existing
    /// record (a clip's asset belongs to the clip's project), order indices are dense, and
    /// every record's values lie in their domains (positive frame rate and resolution,
    /// non-negative sizes, durations and clip starts).
    pub open spec fn wf(&self) -> bool {
        &&& self.projects().len() <= i32::MAX
        &&& self.assets().len() <= i32::MAX
        &&& self.tracks().len() <= i32::MAX
        &&& self.clips().len() <= i32::MAX
        &&& forall|i: int|
            0 <= i < self.projects().len() ==> {
                &&& #[trigger] self.projects()[i].id == i + 1
                &&& settings_valid(
                    self.projects()[i].frame_rate as int,
                    self.projects()[i].resolution_width as int,
                    self.projects()[i].resolution_height as int,
                )
                &&& self.projects()[i].duration_ms >= 0
            }
        &&& forall|i: int|
            0 <= i < self.assets().len() ==> {
                &&& #[trigger] self.assets()[i].id == i + 1
                &&& self.has_project(self.assets()[i].project_id as int)
                &&& asset_values_valid(
                    self.assets()[i].duration_ms,
                    self.assets()[i].width,
                    self.assets()[i].height,
                    self.assets()[i].file_size_bytes as int,
                )
            }
        &&& forall|i: int|
            0 <= i < self.tracks().len() ==> {
                &&& #[trigger] self.tracks()[i].id == i + 1
                &&& self.has_project(self.tracks()[i].project_id as int)
            }
        &&& orders_dense(self.tracks())
        &&& forall|i: int|
            0 <= i < self.clips().len() ==> {
                &&& #[trigger] self.clips()[i].id == i + 1
                &&& self.has_track(self.clips()[i].track_id as int)
                &&& self.clips()[i].start_time_ms >= 0
                &&& match self.clips()[i].asset_id {
                    Some(a) => self.has_asset(a as int) && self.asset(a as int).project_id
                        == self.track(self.clips()[i].track_id as int).project_id,
                    None => true,
                }
            }
    }

    /// An empty store.
    pub fn new() -> (r: Store)
        ensures
            r.wf(),
            r.projects().len() == 0,
            r.assets().len() == 0,
            r.tracks().len() == 0,
            r.clips().len() == 0,
    {
        Store { projects: Vec::new(), assets: Vec::new(), tracks: Vec::new(), clips: Vec::new() }
    }

    /// Number of projects.
    pub fn project_count(&self) -> (r: usize)
        ensures
            r == self.projects().len(),
    {
        self.projects.len()
    }

    /// Number of assets, over all projects.
    pub fn asset_count(&self) -> (r: usize)
        ensures
            r == self.assets().len(),
    {
        self.assets.len()
    }

    /// Number of tracks, over all projects.
    pub fn track_count(&self) -> (r: usize)
        ensures
            r == self.tracks().len(),
    {
        self.tracks.len()
    }

    /// Number of clips, over all tracks.
    pub fn clip_count(&self) -> (r: usize)
        ensures
            r == self.clips().len(),
    {
        self.clips.len()
    }
}

/// What creating a project with these settings does to the store: `ConstraintViolation` for
/// a frame rate or resolution that is not positive, `TransactionFailure` when the project
/// relation is full (both leave the store as it was), else the new project, appended.
pub open spec fn project_created(
    before: Store,
    after: Store,
    r: Result<Project, StoreError>,
    name: String,
    frame_rate: i32,
    resolution_width: i32,
    resolution_height: i32,
    now: String,
) -> bool {
    let valid = settings_valid(frame_rate as int, resolution_width as int, resolution_height as int);
    &&& !valid ==> r == Err::<Project, StoreError>(StoreError::ConstraintViolation)
    &&& valid && before.projects().len() == i32::MAX ==> r == Err::<Project, StoreError>(
        StoreError::TransactionFailure,
    )
    &&& r.is_ok() <==> valid && before.projects().len() < i32::MAX
    &&& r.is_err() ==> after == before
    &&& r.is_ok() ==> {
        let p = r.unwrap();
        &&& p == (Project {
            id: (before.projects().len() + 1) as i32,
            name,
            duration_ms: 0,
            frame_rate,
            resolution_width,
            resolution_height,
            created_at: now,
            updated_at: now,
        })
        &&& after.projects() == before.projects().push(p)
        &&& after.assets() == before.assets()
        &&& after.tracks() == before.tracks()
        &&& after.clips() == before.clips()
    }
}

/// Creates a project with duration 0; `now` is the store's timestamp for it.
pub fn create_project(
    store: &mut Store,
    name: String,
    frame_rate: i32,
    resolution_width: i32,
    resolution_height: i32,
    now: String,
) -> (r: Result<Project, StoreError>)
    requires
        old(store).wf(),
    ensures
        final(store).wf(),
        project_created(
            *old(store),
            *final(store),
            r,
            name,
            frame_rate,
            resolution_width,
            resolution_height,
            now,
        ),
{
    if !settings_are_valid(frame_rate, resolution_width, resolution_height) {
        return Err(StoreError::ConstraintViolation);
    }
    if store.projects.len() >= i32::MAX as usize {
        return Err(StoreError::TransactionFailure);
    }
    let id = (store.projects.len() + 1) as i32;
    let project = Project {
        id,
        name,
        duration_ms: 0,
        frame_rate,
        resolution_width,
        resolution_height,
        created_at: now.clone(),
        updated_at: now,
    };
    store.projects.push(project.clone());
    proof {
        assert(store.assets() == old(store).assets());
        assert(store.tracks() == old(store).tracks());
        assert(store.clips() == old(store).clips());
        assert forall|j: int| 0 <= j < store.projects().len() implies {
            &&& #[trigger] store.projects()[j].id == j + 1
            &&& settings_valid(
                store.projects()[j].frame_rate as int,
                store.projects()[j].resolution_width as int,
                store.projects()[j].resolution_height as int,
            )
            &&& store.projects()[j].duration_ms >= 0
        } by {
            if j < old(store).projects().len() {
                assert(store.projects()[j] == old(store).projects()[j]);
                assert(old(store).projects()[j].id == j + 1);
            }
        }
        assert forall|j: int| 0 <= j < store.clips().len() implies {
            &&& #[trigger] store.clips()[j].id == j + 1
            &&& store.has_track(store.clips()[j].track_id as int)
            &&& store.clips()[j].start_time_ms >= 0
            &&& match store.clips()[j].asset_id {
                Some(a) => store.has_asset(a as int) && store.asset(a as int).project_id
                    == store.track(store.clips()[j].track_id as int).project_id,
                None => true,
            }
        } by {
            if j < old(store).clips().len() {
                assert(store.clips()[j] == old(store).clips()[j]);
                assert(old(store).clips()[j].id == j + 1);
                assert(old(store).has_track(old(store).clips()[j].track_id as int));
                assert(store.track(store.clips()[j].track_id as int) == old(store).track(
                    store.clips()[j].track_id as int,
                ));
            }
        }
    }
    Ok(project)
}

/// Creates a project, with 30 frames per second and 1920 by 1080 where those are not given;
/// otherwise exactly as `create_project`.
pub fn create_project_command(
    store: &mut Store,
    name: String,
    frame_rate: Option<i32>,
    resolution_width: Option<i32>,
    resolution_height: Option<i32>,
    now: String,
) -> (r: Result<Project, StoreError>)
    requires
        old(store).wf(),
    ensures
        final(store).wf(),
        project_created(
            *old(store),
            *final(store),
            r,
            name,
            frame_rate.unwrap_or(DEFAULT_FRAME_RATE),
            resolution_width.unwrap_or(DEFAULT_RESOLUTION_WIDTH),
            resolution_height.unwrap_or(DEFAULT_RESOLUTION_HEIGHT),
            now,
        ),
{
    let (frame_rate, resolution_width, resolution_height) = resolve_settings(
        frame_rate,
        resolution_width,
        resolution_height,
    );
    create_project(store, name, frame_rate, resolution_width, resolution_height, now)
}

/// Every project, in creation order; empty on an empty store.
pub fn get_all_projects(store: &Store) -> (r: Result<Vec<Project>, StoreError>)
    ensures
        r.is_ok(),
        r.unwrap()@ == store.projects(),
{
    let mut out: Vec<Project> = Vec::new();
    let mut i: usize = 0;
    while i < store.projects.len()
        invariant
            i <= store.projects().len(),
            out@ == store.projects().take(i as int),
        decreases store.projects().len() - i,
    {
        out.push(store.projects[i].clone());
        assert(store.projects().take(i + 1) == store.projects().take(i as int).push(
            store.projects()[i as int],
        ));
        i = i + 1;
    }
    assert(store.projects().take(i as int) == store.projects());
    Ok(out)
}

/// The project with this id, or `NotFound`.
pub fn get_project_by_id(store: &Store, project_id: i32) -> (r: Result<Project, StoreError>)
    ensures
        store.has_project(project_id as int) <==> r.is_ok(),
        r.is_ok() ==> r.unwrap() == store.projects()[project_id - 1],
        r.is_err() ==> r == Err::<Project, StoreError>(StoreError::NotFound),
{
    if project_id < 1 || project_id as usize > store.projects.len() {
        return Err(StoreError::NotFound);
    }
    Ok(store.projects[(project_id - 1) as usize].clone())
}

/// Imports an asset into an existing project; `now` is its import timestamp.
/// Fails with `NotFound` when the project does not exist and with `ConstraintViolation` for a
/// negative duration, dimension or file size; a failure changes nothing.
pub fn add_asset(
    store: &mut Store,
    project_id: i32,
    file_path: String,
    asset_type: String,
    duration_ms: Option<i32>,
    width: Option<i32>,
    height: Option<i32>,
    file_size_bytes: i32,
    now: String,
) -> (r: Result<Asset, StoreError>)
    requires
        old(store).wf(),
    ensures
        final(store).wf(),
        r.is_err() ==> *final(store) == *old(store),
        !old(store).has_project(project_id as int) ==> r == Err::<Asset, StoreError>(
            StoreError::NotFound,
        ),
        old(store).has_project(project_id as int) && !asset_values_valid(
            duration_ms,
            width,
            height,
            file_size_bytes as int,
        ) ==> r == Err::<Asset, StoreError>(StoreError::ConstraintViolation),
        old(store).has_project(project_id as int) && asset_values_valid(
            duration_ms,
            width,
            height,
            file_size_bytes as int,
        ) && old(store).assets().len() == i32::MAX ==> r == Err::<Asset, StoreError>(
            StoreError::TransactionFailure,
        ),
        r.is_ok() <==> old(store).has_project(project_id as int) && asset_values_valid(
            duration_ms,
            width,
            height,
            file_size_bytes as int,
        ) && old(store).assets().len() < i32::MAX,
        r.is_ok() ==> {
            let a = r.unwrap();
            &&& a == (Asset {
                id: (old(store).assets().len() + 1) as i32,
                project_id,
                file_path,
                asset_type,
                duration_ms,
                width,
                height,
                file_size_bytes,
                imported_at: now,
            })
            &&& final(store).assets() == old(store).assets().push(a)
            &&& final(store).projects() == old(store).projects()
            &&& final(store).tracks() == old(store).tracks()
            &&& final(store).clips() == old(store).clips()
        },
{
    if project_id < 1 || project_id as usize > store.projects.len() {
        return Err(StoreError::NotFound);
    }
    if !asset_values_are_valid(duration_ms, width, height, file_size_bytes) {
        return Err(StoreError::ConstraintViolation);
    }
    if store.assets.len() >= i32::MAX as usize {
        return Err(StoreError::TransactionFailure);
    }
    let id = (store.assets.len() + 1) as i32;
    let asset = Asset {
        id,
        project_id,
        file_path,
        asset_type,
        duration_ms,
        width,
        height,
        file_size_bytes,
        imported_at: now,
    };
    store.assets.push(asset.clone());
    assert(forall|i: int|
        0 <= i < old(store).assets().len() ==> #[trigger] store.assets()[i] == old(store).assets()[i]);
    Ok(asset)
}

/// The assets of a project, in import order; empty when there are none.
pub fn get_assets_by_project(store: &Store, project_id: i32) -> (r: Result<
    Vec<Asset>,
    StoreError,
>)
    ensures
        r.is_ok(),
        r.unwrap()@ == store.project_assets(project_id),
{
    let mut out: Vec<Asset> = Vec::new();
    let mut i: usize = 0;
    while i < store.assets.len()
        invariant
            i <= store.assets().len(),
            out@ == store.assets().take(i as int).filter(owned_by(project_id)),
        decreases store.assets().len() - i,
    {
        assert(store.assets().take(i + 1) == store.assets().take(i as int).push(
            store.assets()[i as int],
        ));
        proof {
            store.assets().take(i as int).lemma_filter_push(
                store.assets()[i as int],
                owned_by(project_id),
            );
        }
        if store.assets[i].project_id == project_id {
            out.push(store.assets[i].clone());
        }
        i = i + 1;
    }
    assert(store.assets().take(i as int) == store.assets());
    Ok(out)
}


/// Within the first `n` tracks, the tracks of a project carry order indices 0, 1, 2, ...
proof fn lemma_dense_prefix(tracks: Seq<Track>, project_id: i32, n: int)
    requires
        orders_dense(tracks),
        0 <= n <= tracks.len(),
    ensures
        forall|k: int|
            0 <= k < tracks.take(n).filter(in_project(project_id)).len() ==> (#[trigger] tracks.take(
                n,
            ).filter(in_project(project_id))[k]).order_index == k,
    decreases n,
{
    if n > 0 {
        lemma_dense_prefix(tracks, project_id, n - 1);
        assert(tracks.take(n) == tracks.take(n - 1).push(tracks[n - 1]));
        tracks.take(n - 1).lemma_filter_push(tracks[n - 1], in_project(project_id));
    }
}

/// The order indices of a project's tracks, in creation order, are exactly 0, 1, ..., n - 1:
/// dense, without gaps or duplicates, whatever other projects' records were written between
/// their creations.
pub proof fn lemma_order_indices_dense(store: &Store, project_id: i32)
    requires
        store.wf(),
    ensures
        forall|k: int|
            0 <= k < store.project_tracks(project_id).len() ==> (#[trigger] store.project_tracks(
                project_id,
            )[k]).order_index == k,
{
    lemma_dense_prefix(store.tracks(), project_id, store.tracks().len() as int);
    assert(store.tracks().take(store.tracks().len() as int) == store.tracks());
}

/// The order indices of a project's `n` tracks form exactly the set {0, 1, ..., n - 1}, and no
/// two of its tracks share one.
pub proof fn lemma_order_indices_are_range(store: &Store, project_id: i32)
    requires
        store.wf(),
    ensures
        store.project_tracks(project_id).map_values(|t: Track| t.order_index as int).to_set()
            == Set::new(|k: int| 0 <= k < store.project_tracks(project_id).len()),
        forall|a: int, b: int|
            0 <= a < b < store.project_tracks(project_id).len() ==> (#[trigger] store.project_tracks(
                project_id,
            )[a]).order_index != (#[trigger] store.project_tracks(project_id)[b]).order_index,
{
    lemma_order_indices_dense(store, project_id);
    let ts = store.project_tracks(project_id);
    let idx = ts.map_values(|t: Track| t.order_index as int);
    assert forall|k: int| idx.to_set().contains(k) <==> 0 <= k < ts.len() by {
        if 0 <= k < ts.len() {
            assert(idx[k] == k);
            assert(idx.contains(k));
        }
        if idx.contains(k) {
            let m = choose|m: int| 0 <= m < idx.len() && idx[m] == k;
            assert(ts[m].order_index == m);
        }
    }
    assert(idx.to_set() =~= Set::new(|k: int| 0 <= k < ts.len()));
}

/// No two tracks of one project share an order index; the one created later has the larger.
pub proof fn lemma_order_indices_unique(store: &Store, i: int, j: int)
    requires
        store.wf(),
        0 <= i < j < store.tracks().len(),
        store.tracks()[i].project_id == store.tracks()[j].project_id,
    ensures
        store.tracks()[i].order_index < store.tracks()[j].order_index,
{
    let t = store.tracks();
    let pred = in_project(t[i].project_id);
    assert(t.take(j) == t.take(i + 1) + t.subrange(i + 1, j));
    Seq::filter_distributes_over_add(t.take(i + 1), t.subrange(i + 1, j), pred);
    assert(t.take(i + 1) == t.take(i).push(t[i]));
    t.take(i).lemma_filter_push(t[i], pred);
    assert(t[i].order_index == t.take(i).filter(pred).len());
    assert(t[j].order_index == t.take(j).filter(pred).len());
}

/// Inserting into a sequence adds the element to its multiset.
proof fn lemma_insert_multiset(s: Seq<Clip>, p: int, c: Clip)
    requires
        0 <= p <= s.len(),
    ensures
        s.insert(p, c).to_multiset() == s.to_multiset().insert(c),
{
    broadcast use vstd::multiset::group_multiset_axioms;

    let t = s.insert(p, c);
    s.insert_ensures(p, c);
    assert(t.remove(p) == s);
    t.to_multiset_ensures();
    assert(t.contains(c)) by {
        assert(t[p] == c);
    }
    assert(t.to_multiset() =~= t.to_multiset().remove(c).insert(c));
}

impl Store {
    /// The largest order index among the project's tracks, `None` when it has none.
    fn max_order_index(&self, project_id: i32) -> (r: Option<i32>)
        requires
            self.wf(),
        ensures
            self.project_tracks(project_id).len() == 0 ==> r.is_none(),
            self.project_tracks(project_id).len() > 0 ==> r == Some(
                (self.project_tracks(project_id).len() - 1) as i32,
            ),
    {
        let mut max_order: Option<i32> = None;
        let mut i: usize = 0;
        while i < self.tracks.len()
            invariant
                self.wf(),
                i <= self.tracks().len(),
                self.tracks().take(i as int).filter(in_project(project_id)).len() == 0
                    ==> max_order.is_none(),
                self.tracks().take(i as int).filter(in_project(project_id)).len() > 0
                    ==> max_order == Some(
                    (self.tracks().take(i as int).filter(in_project(project_id)).len()
                        - 1) as i32,
                ),
            decreases self.tracks().len() - i,
        {
            let ghost before = self.tracks().take(i as int).filter(in_project(project_id));
            assert(self.tracks().take(i + 1) == self.tracks().take(i as int).push(
                self.tracks()[i as int],
            ));
            proof {
                self.tracks().take(i as int).lemma_filter_push(
                    self.tracks()[i as int],
                    in_project(project_id),
                );
                assert(self.tracks()[i as int].order_index == self.tracks().take(
                    i as int,
                ).filter(in_project(self.tracks()[i as int].project_id)).len());
                assert(before.len() <= i);
            }
            let t = &self.tracks[i];
            if t.project_id == project_id {
                max_order =
                match max_order {
                    None => Some(t.order_index),
                    Some(m) => Some(
                        if t.order_index > m {
                            t.order_index
                        } else {
                            m
                        },
                    ),
                };
            }
            i = i + 1;
        }
        assert(self.tracks().take(i as int) == self.tracks());
        max_order
    }
}

/// The asset and the project exist and the asset belongs to the project.
pub open spec fn placeable(store: Store, project_id: i32, asset_id: i32) -> bool {
    &&& store.has_asset(asset_id as int)
    &&& store.has_project(project_id as int)
    &&& store.asset(asset_id as int).project_id == project_id
}

/// Creates a track at the end of the project's stacking order, together with a clip that
/// places the whole asset at `start_time_ms` on it.
///
/// The new track's order index is one more than the largest of the project, or 0 for the
/// project's first track; the clip's duration is the asset's (0 when it has none) and both trim
/// offsets are 0. A negative start is a `ConstraintViolation`. On any failure nothing is written.
pub fn create_track_with_clip(
    store: &mut Store,
    project_id: i32,
    asset_id: i32,
    track_type: String,
    start_time_ms: i32,
) -> (r: Result<TrackWithClip, StoreError>)
    requires
        old(store).wf(),
    ensures
        final(store).wf(),
        r.is_err() ==> *final(store) == *old(store),
        !old(store).has_asset(asset_id as int) ==> r == Err::<TrackWithClip, StoreError>(
            StoreError::NotFound,
        ),
        old(store).has_asset(asset_id as int) && !old(store).has_project(project_id as int)
            ==> r == Err::<TrackWithClip, StoreError>(StoreError::NotFound),
        old(store).has_asset(asset_id as int) && old(store).has_project(project_id as int)
            && old(store).asset(asset_id as int).project_id != project_id ==> r == Err::<
            TrackWithClip,
            StoreError,
        >(StoreError::ConstraintViolation),
        placeable(*old(store), project_id, asset_id) && start_time_ms < 0 ==> r == Err::<
            TrackWithClip,
            StoreError,
        >(StoreError::ConstraintViolation),
        placeable(*old(store), project_id, asset_id) && start_time_ms >= 0 && (old(store).tracks().len()
            == i32::MAX || old(store).clips().len() == i32::MAX) ==> r == Err::<
            TrackWithClip,
            StoreError,
        >(StoreError::TransactionFailure),
        r.is_ok() <==> placeable(*old(store), project_id, asset_id) && start_time_ms >= 0
            && old(store).tracks().len() < i32::MAX && old(store).clips().len() < i32::MAX,
        r.is_ok() ==> {
            let tc = r.unwrap();
            &&& tc.track == (Track {
                id: (old(store).tracks().len() + 1) as i32,
                project_id,
                track_type,
                order_index: old(store).project_tracks(project_id).len() as i32,
                is_locked: false,
                is_muted: false,
            })
            &&& tc.clip == clip_row(
                (old(store).clips().len() + 1) as i32,
                crate::models::NewClip {
                    track_id: tc.track.id,
                    asset_id: Some(asset_id),
                    start_time_ms,
                    duration_ms: asset_clip_duration(old(store).asset(asset_id as int)),
                    asset_start_offset_ms: 0,
                    asset_end_offset_ms: 0,
                },
            )
            &&& final(store).tracks() == old(store).tracks().push(tc.track)
            &&& final(store).clips() == old(store).clips().push(tc.clip)
            &&& final(store).projects() == old(store).projects()
            &&& final(store).assets() == old(store).assets()
            &&& final(store).project_tracks(project_id) == old(store).project_tracks(
                project_id,
            ).push(tc.track)
            &&& forall|q: i32|
                q != project_id ==> #[trigger] final(store).project_tracks(q) == old(
                    store,
                ).project_tracks(q)
        },
{
    if asset_id < 1 || asset_id as usize > store.assets.len() {
        return Err(StoreError::NotFound);
    }
    if project_id < 1 || project_id as usize > store.projects.len() {
        return Err(StoreError::NotFound);
    }
    let asset = &store.assets[(asset_id - 1) as usize];
    check_same_project(asset.project_id, project_id)?;
    check_clip_start(start_time_ms)?;
    if store.tracks.len() >= i32::MAX as usize || store.clips.len() >= i32::MAX as usize {
        return Err(StoreError::TransactionFailure);
    }
    let max_order = store.max_order_index(project_id);
    proof {
        assert(store.project_tracks(project_id).len() <= store.tracks().len()) by {
            store.tracks().lemma_filter_len(in_project(project_id));
        }
    }
    let order_index = match next_order_index(max_order) {
        Some(o) => o,
        None => {
            return Err(StoreError::TransactionFailure);
        },
    };
    let track_id = (store.tracks.len() + 1) as i32;
    let new_track = NewTrack { project_id, track_type, order_index };
    let track = Track {
        id: track_id,
        project_id: new_track.project_id,
        track_type: new_track.track_type,
        order_index: new_track.order_index,
        is_locked: false,
        is_muted: false,
    };
    let new_clip = seed_clip(track_id, asset, start_time_ms);
    let clip = Clip {
        id: (store.clips.len() + 1) as i32,
        track_id: new_clip.track_id,
        asset_id: new_clip.asset_id,
        start_time_ms: new_clip.start_time_ms,
        duration_ms: new_clip.duration_ms,
        asset_start_offset_ms: new_clip.asset_start_offset_ms,
        asset_end_offset_ms: new_clip.asset_end_offset_ms,
        volume_percent: DEFAULT_VOLUME_PERCENT,
        is_muted: false,
    };
    let ghost old_tracks = store.tracks();
    store.tracks.push(track.clone());
    store.clips.push(clip);
    proof {
        let n = old_tracks.len() as int;
        assert(store.tracks().take(n) == old_tracks);
        assert forall|i: int| 0 <= i < n implies store.tracks().take(i) == old_tracks.take(i)
            && store.tracks()[i] == old_tracks[i] by {}
        assert(orders_dense(store.tracks()));
        old_tracks.lemma_filter_push(track, in_project(project_id));
        assert forall|q: i32| q != project_id implies #[trigger] store.project_tracks(q)
            == old_tracks.filter(in_project(q)) by {
            old_tracks.lemma_filter_push(track, in_project(q));
        }
    }
    proof {
        assert(store.assets() == old(store).assets());
        assert(store.projects() == old(store).projects());
        assert forall|j: int| 0 <= j < store.tracks().len() implies {
            &&& #[trigger] store.tracks()[j].id == j + 1
            &&& store.has_project(store.tracks()[j].project_id as int)
        } by {
            if j < old(store).tracks().len() {
                assert(store.tracks()[j] == old(store).tracks()[j]);
                assert(old(store).tracks()[j].id == j + 1);
            }
        }
        assert forall|j: int| 0 <= j < store.clips().len() implies {
            &&& #[trigger] store.clips()[j].id == j + 1
            &&& store.has_track(store.clips()[j].track_id as int)
            &&& store.clips()[j].start_time_ms >= 0
            &&& match store.clips()[j].asset_id {
                Some(a) => store.has_asset(a as int) && store.asset(a as int).project_id
                    == store.track(store.clips()[j].track_id as int).project_id,
                None => true,
            }
        } by {
            if j < old(store).clips().len() {
                assert(store.clips()[j] == old(store).clips()[j]);
                assert(old(store).clips()[j].id == j + 1);
                assert(old(store).has_track(old(store).clips()[j].track_id as int));
                assert(store.track(store.clips()[j].track_id as int) == old(store).track(
                    store.clips()[j].track_id as int,
                ));
            }
        }
    }
    proof {
        assert(orders_dense(store.tracks()));
        assert(store.projects().len() <= i32::MAX);
        assert(store.clips().len() <= i32::MAX);
        assert(store.tracks().len() <= i32::MAX);
        assert forall|j: int| 0 <= j < store.projects().len() implies {
            &&& #[trigger] store.projects()[j].id == j + 1
            &&& settings_valid(
                store.projects()[j].frame_rate as int,
                store.projects()[j].resolution_width as int,
                store.projects()[j].resolution_height as int,
            )
            &&& store.projects()[j].duration_ms >= 0
        } by {
            assert(old(store).projects()[j].id == j + 1);
        }
        assert forall|j: int| 0 <= j < store.assets().len() implies {
            &&& #[trigger] store.assets()[j].id == j + 1
            &&& store.has_project(store.assets()[j].project_id as int)
            &&& asset_values_valid(
                store.assets()[j].duration_ms,
                store.assets()[j].width,
                store.assets()[j].height,
                store.assets()[j].file_size_bytes as int,
            )
        } by {
            assert(old(store).assets()[j].id == j + 1);
        }
        assert(store.wf());
    }
    Ok(TrackWithClip { track, clip })
}

/// The tracks of a project in stacking order: ascending order index, which is creation order.
pub fn get_tracks_by_project(store: &Store, project_id: i32) -> (r: Result<
    Vec<Track>,
    StoreError,
>)
    requires
        store.wf(),
    ensures
        r.is_ok(),
        r.unwrap()@ == store.project_tracks(project_id),
        forall|k: int| 0 <= k < r.unwrap()@.len() ==> (#[trigger] r.unwrap()@[k]).order_index == k,
{
    let mut out: Vec<Track> = Vec::new();
    let mut i: usize = 0;
    while i < store.tracks.len()
        invariant
            i <= store.tracks().len(),
            out@ == store.tracks().take(i as int).filter(in_project(project_id)),
        decreases store.tracks().len() - i,
    {
        assert(store.tracks().take(i + 1) == store.tracks().take(i as int).push(
            store.tracks()[i as int],
        ));
        proof {
            store.tracks().take(i as int).lemma_filter_push(
                store.tracks()[i as int],
                in_project(project_id),
            );
        }
        if store.tracks[i].project_id == project_id {
            out.push(store.tracks[i].clone());
        }
        i = i + 1;
    }
    assert(store.tracks().take(i as int) == store.tracks());
    proof {
        lemma_order_indices_dense(store, project_id);
    }
    Ok(out)
}

/// The clips of a track in arrangement order: ascending start time, ties by id. The result
/// holds exactly the track's clips.
pub fn get_clips_by_track(store: &Store, track_id: i32) -> (r: Result<Vec<Clip>, StoreError>)
    requires
        store.wf(),
    ensures
        r.is_ok(),
        r.unwrap()@.to_multiset() == store.track_clips(track_id).to_multiset(),
        arranged(r.unwrap()@),
{
    let mut out: Vec<Clip> = Vec::new();
    let mut i: usize = 0;
    while i < store.clips.len()
        invariant
            store.wf(),
            i <= store.clips().len(),
            out@.to_multiset() == store.clips().take(i as int).filter(
                on_track(track_id),
            ).to_multiset(),
            arranged(out@),
            forall|k: int| 0 <= k < out@.len() ==> (#[trigger] out@[k]).id <= i,
        decreases store.clips().len() - i,
    {
        assert(store.clips().take(i + 1) == store.clips().take(i as int).push(
            store.clips()[i as int],
        ));
        proof {
            store.clips().take(i as int).lemma_filter_push(
                store.clips()[i as int],
                on_track(track_id),
            );
        }
        let c = store.clips[i];
        if c.track_id == track_id {
            let mut p: usize = 0;
            while p < out.len() && out[p].start_time_ms <= c.start_time_ms
                invariant
                    p <= out@.len(),
                    forall|k: int| 0 <= k < p ==> (#[trigger] out@[k]).start_time_ms <= c.start_time_ms,
                decreases out@.len() - p,
            {
                p = p + 1;
            }
            let ghost prev = out@;
            proof {
                prev.insert_ensures(p as int, c);
                lemma_insert_multiset(prev, p as int, c);
                assert forall|k: int| p <= k < prev.len() implies c.start_time_ms
                    < #[trigger] prev[k].start_time_ms by {
                    if k > p {
                        assert(clip_before(prev[p as int], prev[k]));
                    }
                }
            }
            out.insert(p, c);
            proof {
                assert forall|a: int, b: int| 0 <= a < b < out@.len() implies clip_before(
                    #[trigger] out@[a],
                    #[trigger] out@[b],
                ) by {
                    if b < p {
                        assert(clip_before(prev[a], prev[b]));
                    } else if b == p {
                        assert(out@[a] == prev[a]);
                    } else if a < p {
                        assert(out@[b] == prev[b - 1]);
                        assert(clip_before(prev[a], prev[b - 1]));
                    } else if a == p {
                        assert(out@[b] == prev[b - 1]);
                    } else {
                        assert(out@[a] == prev[a - 1]);
                        assert(out@[b] == prev[b - 1]);
                        assert(clip_before(prev[a - 1], prev[b - 1]));
                    }
                }
                assert forall|k: int| 0 <= k < out@.len() implies (#[trigger] out@[k]).id <= i + 1 by {
                    if k < p {
                        assert(out@[k] == prev[k]);
                    } else if k > p {
                        assert(out@[k] == prev[k - 1]);
                    }
                }
            }
        }
        i = i + 1;
    }
    assert(store.clips().take(i as int) == store.clips());
    Ok(out)
}


/// Two track lists with the same projects position by position select equally many tracks
/// of each project.
proof fn lemma_same_projects_filter_len(a: Seq<Track>, b: Seq<Track>, project_id: i32)
    requires
        a.len() == b.len(),
        forall|i: int| 0 <= i < a.len() ==> (#[trigger] a[i]).project_id == b[i].project_id,
    ensures
        a.filter(in_project(project_id)).len() == b.filter(in_project(project_id)).len(),
    decreases a.len(),
{
    if a.len() > 0 {
        lemma_same_projects_filter_len(a.drop_last(), b.drop_last(), project_id);
        assert(a == a.drop_last().push(a.last()));
        assert(b == b.drop_last().push(b.last()));
        a.drop_last().lemma_filter_push(a.last(), in_project(project_id));
        b.drop_last().lemma_filter_push(b.last(), in_project(project_id));
    }
}

/// The tracks with the lock flag of the one at position `i` set to `locked`.
pub open spec fn with_lock(tracks: Seq<Track>, i: int, locked: bool) -> Seq<Track> {
    tracks.update(i, Track { is_locked: locked, ..tracks[i] })
}

/// Locks or unlocks a track. A locked track's clips cannot be placed, moved or trimmed.
pub fn set_track_locked(store: &mut Store, track_id: i32, locked: bool) -> (r: Result<
    (),
    StoreError,
>)
    requires
        old(store).wf(),
    ensures
        final(store).wf(),
        old(store).has_track(track_id as int) <==> r.is_ok(),
        r.is_err() ==> r == Err::<(), StoreError>(StoreError::NotFound) && *final(store) == *old(store),
        r.is_ok() ==> {
            &&& final(store).tracks() == with_lock(old(store).tracks(), track_id - 1, locked)
            &&& final(store).projects() == old(store).projects()
            &&& final(store).assets() == old(store).assets()
            &&& final(store).clips() == old(store).clips()
        },
{
    if track_id < 1 || track_id as usize > store.tracks.len() {
        return Err(StoreError::NotFound);
    }
    let i = (track_id - 1) as usize;
    let mut t = store.tracks[i].clone();
    t.is_locked = locked;
    let ghost old_tracks = store.tracks();
    store.tracks.set(i, t);
    proof {
        let nt = store.tracks();
        assert(nt == with_lock(old_tracks, i as int, locked));
        assert forall|j: int| 0 <= j < nt.len() implies (#[trigger] nt[j]).id == old_tracks[j].id
            && nt[j].project_id == old_tracks[j].project_id by {}
        assert forall|j: int| 0 <= j < nt.len() implies #[trigger] nt[j].order_index
            == nt.take(j).filter(in_project(nt[j].project_id)).len() by {
            lemma_same_projects_filter_len(
                old_tracks.take(j),
                nt.take(j),
                nt[j].project_id,
            );
        }
    }
    proof {
        assert forall|j: int| 0 <= j < store.clips().len() implies {
            &&& #[trigger] store.clips()[j].id == j + 1
            &&& store.has_track(store.clips()[j].track_id as int)
            &&& match store.clips()[j].asset_id {
                Some(a) => store.has_asset(a as int) && store.asset(a as int).project_id
                    == store.track(store.clips()[j].track_id as int).project_id,
                None => true,
            }
        } by {
            assert(old(store).clips()[j].id == j + 1);
        }
    }
    Ok(())
}

/// Places a clip on an existing, unlocked track, with no trim (both offsets 0). `asset_id` is
/// `None` for a gap clip; otherwise the asset must belong to the track's project. The start
/// must not be negative and the duration must be positive.
pub fn add_clip(
    store: &mut Store,
    track_id: i32,
    asset_id: Option<i32>,
    start_time_ms: i32,
    duration_ms: i32,
) -> (r: Result<Clip, StoreError>)
    requires
        old(store).wf(),
    ensures
        final(store).wf(),
        r.is_err() ==> *final(store) == *old(store),
        !old(store).has_track(track_id as int) ==> r == Err::<Clip, StoreError>(
            StoreError::NotFound,
        ),
        old(store).has_track(track_id as int) && old(store).track(track_id as int).is_locked
            ==> r == Err::<Clip, StoreError>(StoreError::LockedTrack),
        r.is_ok() <==> {
            &&& old(store).has_track(track_id as int)
            &&& !old(store).track(track_id as int).is_locked
            &&& match asset_id {
                Some(a) => old(store).has_asset(a as int) && old(store).asset(a as int).project_id
                    == old(store).track(track_id as int).project_id,
                None => true,
            }
            &&& start_time_ms >= 0
            &&& duration_ms > 0
            &&& old(store).clips().len() < i32::MAX
        },
        old(store).has_track(track_id as int) && !old(store).track(track_id as int).is_locked
            && asset_id.is_some() && !old(store).has_asset(asset_id.unwrap() as int) ==> r
            == Err::<Clip, StoreError>(StoreError::NotFound),
        r.is_ok() ==> {
            &&& r.unwrap() == clip_row(
                (old(store).clips().len() + 1) as i32,
                crate::models::NewClip {
                    track_id,
                    asset_id,
                    start_time_ms,
                    duration_ms,
                    asset_start_offset_ms: 0,
                    asset_end_offset_ms: 0,
                },
            )
            &&& final(store).clips() == old(store).clips().push(r.unwrap())
            &&& final(store).projects() == old(store).projects()
            &&& final(store).assets() == old(store).assets()
            &&& final(store).tracks() == old(store).tracks()
        },
{
    if track_id < 1 || track_id as usize > store.tracks.len() {
        return Err(StoreError::NotFound);
    }
    let track = &store.tracks[(track_id - 1) as usize];
    if track.is_locked {
        return Err(StoreError::LockedTrack);
    }
    match asset_id {
        Some(a) => {
            if a < 1 || a as usize > store.assets.len() {
                return Err(StoreError::NotFound);
            }
            if store.assets[(a - 1) as usize].project_id != track.project_id {
                return Err(StoreError::ConstraintViolation);
            }
        },
        None => {},
    }
    if start_time_ms < 0 || duration_ms <= 0 {
        return Err(StoreError::ConstraintViolation);
    }
    if store.clips.len() >= i32::MAX as usize {
        return Err(StoreError::TransactionFailure);
    }
    let clip = Clip {
        id: (store.clips.len() + 1) as i32,
        track_id,
        asset_id,
        start_time_ms,
        duration_ms,
        asset_start_offset_ms: 0,
        asset_end_offset_ms: 0,
        volume_percent: DEFAULT_VOLUME_PERCENT,
        is_muted: false,
    };
    store.clips.push(clip);
    proof {
        assert forall|j: int| 0 <= j < old(store).clips().len() implies (#[trigger] store.clips()[j]).id
            == old(store).clips()[j].id && store.clips()[j].track_id == old(store).clips()[j].track_id
            && store.clips()[j].asset_id == old(store).clips()[j].asset_id by {}
    }
    Ok(clip)
}

/// Whether a clip may be changed: it exists and its track is not locked.
pub open spec fn clip_editable(store: &Store, clip_id: i32) -> bool {
    &&& 1 <= clip_id <= store.clips().len()
    &&& !store.track(store.clips()[clip_id - 1].track_id as int).is_locked
}

/// Moves a clip to a new start time on its track. Fails with `NotFound` for a missing clip,
/// `LockedTrack` when its track is locked, `ConstraintViolation` for a negative start.
pub fn move_clip(store: &mut Store, clip_id: i32, start_time_ms: i32) -> (r: Result<
    Clip,
    StoreError,
>)
    requires
        old(store).wf(),
    ensures
        final(store).wf(),
        r.is_err() ==> *final(store) == *old(store),
        !(1 <= clip_id <= old(store).clips().len()) ==> r == Err::<Clip, StoreError>(
            StoreError::NotFound,
        ),
        1 <= clip_id <= old(store).clips().len() && !clip_editable(old(store), clip_id) ==> r
            == Err::<Clip, StoreError>(StoreError::LockedTrack),
        clip_editable(old(store), clip_id) && start_time_ms < 0 ==> r == Err::<Clip, StoreError>(
            StoreError::ConstraintViolation,
        ),
        r.is_ok() <==> clip_editable(old(store), clip_id) && start_time_ms >= 0,
        r.is_ok() ==> {
            &&& r.unwrap() == (Clip { start_time_ms, ..old(store).clips()[clip_id - 1] })
            &&& final(store).clips() == old(store).clips().update(clip_id - 1, r.unwrap())
            &&& final(store).projects() == old(store).projects()
            &&& final(store).assets() == old(store).assets()
            &&& final(store).tracks() == old(store).tracks()
        },
{
    if clip_id < 1 || clip_id as usize > store.clips.len() {
        return Err(StoreError::NotFound);
    }
    let i = (clip_id - 1) as usize;
    let mut clip = store.clips[i];
    if store.tracks[(clip.track_id - 1) as usize].is_locked {
        return Err(StoreError::LockedTrack);
    }
    if start_time_ms < 0 {
        return Err(StoreError::ConstraintViolation);
    }
    clip.start_time_ms = start_time_ms;
    store.clips.set(i, clip);
    proof {
        assert forall|j: int| 0 <= j < old(store).clips().len() implies (#[trigger] store.clips()[j]).id
            == old(store).clips()[j].id && store.clips()[j].track_id == old(store).clips()[j].track_id
            && store.clips()[j].asset_id == old(store).clips()[j].asset_id by {}
    }
    Ok(clip)
}

/// Sets a clip's trim window into its asset. The window must satisfy
/// `0 <= start < end`, and `end <= duration` where the clip's asset has a known duration;
/// otherwise `ConstraintViolation`. `NotFound` and `LockedTrack` as for `move_clip`.
pub fn update_clip_trim(
    store: &mut Store,
    clip_id: i32,
    asset_start_offset_ms: i32,
    asset_end_offset_ms: i32,
) -> (r: Result<Clip, StoreError>)
    requires
        old(store).wf(),
    ensures
        final(store).wf(),
        r.is_err() ==> *final(store) == *old(store),
        !(1 <= clip_id <= old(store).clips().len()) ==> r == Err::<Clip, StoreError>(
            StoreError::NotFound,
        ),
        1 <= clip_id <= old(store).clips().len() && !clip_editable(old(store), clip_id) ==> r
            == Err::<Clip, StoreError>(StoreError::LockedTrack),
        r.is_ok() <==> clip_editable(old(store), clip_id) && trim_fits(
            asset_start_offset_ms as int,
            asset_end_offset_ms as int,
            match old(store).clips()[clip_id - 1].asset_id {
                Some(a) => old(store).asset(a as int).duration_ms,
                None => None,
            },
        ),
        clip_editable(old(store), clip_id) && r.is_err() ==> r == Err::<Clip, StoreError>(
            StoreError::ConstraintViolation,
        ),
        r.is_ok() ==> {
            &&& r.unwrap() == (Clip {
                asset_start_offset_ms,
                asset_end_offset_ms,
                ..old(store).clips()[clip_id - 1]
            })
            &&& final(store).clips() == old(store).clips().update(clip_id - 1, r.unwrap())
            &&& final(store).projects() == old(store).projects()
            &&& final(store).assets() == old(store).assets()
            &&& final(store).tracks() == old(store).tracks()
        },
{
    if clip_id < 1 || clip_id as usize > store.clips.len() {
        return Err(StoreError::NotFound);
    }
    let i = (clip_id - 1) as usize;
    let mut clip = store.clips[i];
    if store.tracks[(clip.track_id - 1) as usize].is_locked {
        return Err(StoreError::LockedTrack);
    }
    let duration: Option<i32> = match clip.asset_id {
        Some(a) => store.assets[(a - 1) as usize].duration_ms,
        None => None,
    };
    if !trim_is_valid(asset_start_offset_ms, asset_end_offset_ms, duration) {
        return Err(StoreError::ConstraintViolation);
    }
    clip.asset_start_offset_ms = asset_start_offset_ms;
    clip.asset_end_offset_ms = asset_end_offset_ms;
    store.clips.set(i, clip);
    proof {
        assert forall|j: int| 0 <= j < old(store).clips().len() implies (#[trigger] store.clips()[j]).id
            == old(store).clips()[j].id && store.clips()[j].track_id == old(store).clips()[j].track_id
            && store.clips()[j].asset_id == old(store).clips()[j].asset_id by {}
    }
    Ok(clip)
}

} // verus!
